//! The user record of the ingested data.
use vstd::prelude::*;

verus! {

/// One user row: an identifier and optional demographic attributes.
#[derive(Default, Debug, Clone, PartialEq)]
pub struct User {
    pub userid: String,
    pub ipaddress: Option<String>,
    pub maid: Option<String>,
    pub estimated_age: Option<u32>,
    pub age_range: Option<String>,
    pub age_generation: Option<String>,
    pub race_ethnicity: Option<String>,
    pub income_range: Option<String>,
    pub income_bucket: Option<String>,
    pub gender: Option<String>,
    pub user_zip: Option<String>,
    pub user_state: Option<String>,
    pub presence_of_children: Option<bool>,
    pub quant_of_children: Option<u32>,
    pub education: Option<String>,
    pub living_situation: Option<String>,
    pub hh_size: Option<u32>,
    pub marital_status: Option<String>,
    pub employment_status: Option<String>,
    pub sexual_orientation: Option<String>,
}

} // verus!
