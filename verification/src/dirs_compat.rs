//! Where a user's data is kept.
use vstd::prelude::*;

use crate::text;

verus! {

/// A directory: one that is given, and the names to go down from there.
#[derive(Debug)]
pub struct DataDir {
    pub base: String,
    pub below: Vec<String>,
}

/// The directory for a user's data: the one that the system names for it, else
/// the usual one in the user's home. An empty name counts as none; an empty home
/// does not.
pub fn data_dir(xdg_data_home: Option<String>, home: Option<String>) -> (r: Option<DataDir>)
    ensures
        if xdg_data_home matches Some(named) && named@.len() > 0 {
            r matches Some(dir) && dir.base == xdg_data_home->0 && dir.below@.len() == 0
        } else {
            match home {
                Some(home) => r matches Some(dir) && dir.base == home && text::texts(dir.below@)
                    == seq![".local"@, "share"@],
                None => r is None,
            }
        },
{
    if let Some(named) = xdg_data_home {
        if !named.as_str().is_empty() {
            return Some(DataDir { base: named, below: Vec::new() });
        }
    }
    match home {
        Some(home) => {
            let below = vec![".local".to_owned(), "share".to_owned()];
            assert(text::texts(below@) =~= seq![".local"@, "share"@]);
            Some(DataDir { base: home, below })
        },
        None => None,
    }
}

} // verus!
