use vstd::prelude::*;

verus! {

/// A chud recovering in the hospital.
#[derive(Debug)]
pub struct HospitalEntry {
    pub discord_user_id: u64,
    pub chud_name: String,
}

/// Chuds currently admitted to the hospital.
#[derive(Debug, Default)]
pub struct Hospital {
    pub entries: Vec<HospitalEntry>,
}

/// Is `uid` among the admitted players?
pub open spec fn admitted(entries: Seq<HospitalEntry>, uid: u64) -> bool
    decreases entries.len(),
{
    entries.len() > 0 && (entries.last().discord_user_id == uid || admitted(entries.drop_last(), uid))
}

} // verus!
