//! Cabinets: directories that carry a declaration file.

use vstd::prelude::*;
use crate::conf::{CabinetConfig, CabinetConfigError};

verus! {

/// Name of the declaration file that makes a directory a cabinet.
pub const CABINET_CONFIG_NAME: &'static str = "rsdish.cabinet.toml";

/// Name of the per-directory file of ignore patterns honoured by every walk.
pub const SRC_IGNORE_NAME: &'static str = ".srcignore";

#[derive(Debug)]
pub struct CabinetInfo {
    pub abs_path: String,
    pub conf_abs_path: String,
    pub cab_conf: CabinetConfig,
}

#[derive(Debug)]
pub struct Cabinet {
    pub cab_info: CabinetInfo,
}

/// Two cabinet descriptions that hold the same paths and the same declaration.
pub open spec fn same_cabinet(a: CabinetInfo, b: CabinetInfo) -> bool {
    &&& a.abs_path == b.abs_path
    &&& a.conf_abs_path == b.conf_abs_path
    &&& a.cab_conf.note == b.cab_conf.note
    &&& a.cab_conf.memberships@ == b.cab_conf.memberships@
}

impl Clone for CabinetInfo {
    fn clone(&self) -> (r: Self)
        ensures
            same_cabinet(r, *self),
    {
        CabinetInfo {
            abs_path: self.abs_path.clone(),
            conf_abs_path: self.conf_abs_path.clone(),
            cab_conf: self.cab_conf.clone(),
        }
    }
}

/// Whether a directory entry of this name is the cabinet's own declaration,
/// which walks never treat as data.
pub fn is_cabinet_config_name(name: &str) -> (r: bool)
    ensures
        r == (name@ == "rsdish.cabinet.toml"@),
{
    let a = String::from_str(name);
    let b = String::from_str(CABINET_CONFIG_NAME);
    proof {
        reveal_strlit("rsdish.cabinet.toml");
    }
    a == b
}

/// A cabinet at `abs_path` whose declaration, read from `conf_abs_path`, is `cab_conf`;
/// refused with the declaration's first fault.
pub fn build_cabinet_from_config(abs_path: String, conf_abs_path: String, cab_conf: CabinetConfig) -> (r: Result<Cabinet, CabinetConfigError>)
    ensures
        cab_conf.verify_spec() is Err ==> r == Err::<Cabinet, CabinetConfigError>(cab_conf.verify_spec()->Err_0),
        cab_conf.verify_spec() is Ok ==> r is Ok,
        r matches Ok(c) ==> c.cab_info.abs_path == abs_path && c.cab_info.conf_abs_path == conf_abs_path
            && c.cab_info.cab_conf == cab_conf,
{
    match cab_conf.verify() {
        Err(e) => Err(e),
        Ok(()) => Ok(Cabinet { cab_info: CabinetInfo { abs_path, conf_abs_path, cab_conf } }),
    }
}

} // verus!
