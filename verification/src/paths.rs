//! Default locations of the data directory, the models directory and the
//! admin socket.

use vstd::prelude::*;
use crate::text::{join_path, spec_join_path};

verus! {

/// The models directory: `MARANODE_MODELS_DIR`, else `models`.
pub fn default_models_dir(maranode_models_dir: Option<&str>) -> (r: String)
    ensures
        r@ == match maranode_models_dir {
            Some(d) => d@,
            None => "models"@,
        },
{
    match maranode_models_dir {
        Some(d) => d.to_owned(),
        None => "models".to_owned(),
    }
}

/// The data directory: `MARANODE_DATA_DIR`, else `.local/share/maranode`
/// under `HOME`, else `.maranode-data`.
pub fn default_data_dir(maranode_data_dir: Option<&str>, home: Option<&str>) -> (r: String)
    ensures
        r@ == match maranode_data_dir {
            Some(d) => d@,
            None => match home {
                Some(h) => spec_join_path(h@, ".local/share/maranode"@),
                None => ".maranode-data"@,
            },
        },
{
    match maranode_data_dir {
        Some(d) => d.to_owned(),
        None => match home {
            Some(h) => join_path(h, ".local/share/maranode"),
            None => ".maranode-data".to_owned(),
        },
    }
}

/// The admin socket: `/run/maranode/api.sock` on Linux, `api.sock` under the
/// data directory elsewhere.
pub fn default_unix_socket(linux: bool, data_dir: &str) -> (r: Option<String>)
    ensures
        r matches Some(p) && p@ == if linux { "/run/maranode/api.sock"@ } else { spec_join_path(data_dir@, "api.sock"@) },
{
    if linux {
        Some("/run/maranode/api.sock".to_owned())
    } else {
        Some(join_path(data_dir, "api.sock"))
    }
}

} // verus!
