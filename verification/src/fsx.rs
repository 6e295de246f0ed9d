//! FSx: the records of file systems, backups and storage virtual machines.
use vstd::prelude::*;
use crate::request::{FilterSpec, filter_view};
use crate::time::Timestamp;

verus! {

/// An FSx file system.
#[derive(Debug)]
pub struct FsxFileSystemInfo {
    pub file_system_id: String,
    pub file_system_type: String,
    pub lifecycle: String,
    pub storage_capacity_gi_b: Option<i32>,
    pub storage_type: Option<String>,
    pub vpc_id: Option<String>,
    pub subnet_ids: Vec<String>,
    pub dns_name: Option<String>,
    pub kms_key_id: Option<String>,
    pub creation_time: Option<Timestamp>,
    pub tags: Vec<(String, String)>,
}

/// An FSx backup.
#[derive(Debug)]
pub struct FsxBackupInfo {
    pub backup_id: String,
    pub lifecycle: String,
    pub backup_type: String,
    pub creation_time: Option<Timestamp>,
    pub file_system_id: Option<String>,
    pub resource_arn: Option<String>,
    pub tags: Vec<(String, String)>,
}

/// An FSx for ONTAP storage virtual machine.
#[derive(Debug)]
pub struct FsxStorageVirtualMachineInfo {
    pub storage_virtual_machine_id: String,
    pub name: Option<String>,
    pub file_system_id: String,
    pub lifecycle: String,
    pub subtype: Option<String>,
    pub creation_time: Option<Timestamp>,
    pub tags: Vec<(String, String)>,
}

/// The `file-system-id` filter of `DescribeBackups` and
/// `DescribeStorageVirtualMachines`, when a file system is given.
pub fn file_system_filter(file_system_id: Option<String>) -> (f: Option<FilterSpec>)
    ensures
        file_system_id is None ==> f is None,
        file_system_id is Some ==> f is Some && filter_view(f->Some_0) == (
            "file-system-id"@,
            seq![file_system_id->Some_0@],
        ),
{
    match file_system_id {
        Some(id) => {
            let mut values: Vec<String> = Vec::new();
            values.push(id);
            let f = FilterSpec { name: String::from_str("file-system-id"), values };
            assert(filter_view(f).1 =~= seq![id@]);
            Some(f)
        },
        None => None,
    }
}

} // verus!
