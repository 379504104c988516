use vstd::prelude::*;

verus! {

/// A worked example of the record shapes the pipeline models: an inventory
/// entry whose third field is filled by generation, not by the caller.
pub struct InventoryItem {
    pub name: String,
    pub adress: String,
    pub generated: String,
}

impl InventoryItem {
    /// Construct the example record from its supplied values; the generated
    /// field starts empty.
    pub fn init(name: String, adress: String) -> (r: Self)
        ensures
            r.name == name,
            r.adress == adress,
            r.generated@ == Seq::<char>::empty(),
    {
        InventoryItem { name, adress, generated: String::new() }
    }
}

} // verus!
