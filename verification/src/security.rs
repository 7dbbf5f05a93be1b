//! The security posture record: pre-formatted status strings gathered
//! by an outside collector and consumed read-only here.

use vstd::prelude::*;

verus! {

/// The mathematical view of a security record: its fields as
/// character sequences.
pub ghost struct SecurityInfoV {
    pub firewall_status: Seq<char>,
    pub selinux_status: Seq<char>,
    pub apparmor_status: Seq<char>,
    pub package_updates: Seq<char>,
    pub ssh_status: Seq<char>,
    pub fail2ban_status: Seq<char>,
    pub disk_encryption: Seq<char>,
    pub secure_boot: Seq<char>,
}

/// Security-related host facts, each a best-effort display string with
/// a sentinel such as "Unknown" or "Not available" for absent data.
#[derive(Clone, Debug)]
pub struct SecurityInfo {
    pub firewall_status: String,
    pub selinux_status: String,
    pub apparmor_status: String,
    pub package_updates: String,
    pub ssh_status: String,
    pub fail2ban_status: String,
    pub disk_encryption: String,
    pub secure_boot: String,
}

impl View for SecurityInfo {
    type V = SecurityInfoV;

    open spec fn view(&self) -> SecurityInfoV {
        SecurityInfoV {
            firewall_status: self.firewall_status@,
            selinux_status: self.selinux_status@,
            apparmor_status: self.apparmor_status@,
            package_updates: self.package_updates@,
            ssh_status: self.ssh_status@,
            fail2ban_status: self.fail2ban_status@,
            disk_encryption: self.disk_encryption@,
            secure_boot: self.secure_boot@,
        }
    }
}

impl SecurityInfo {
    /// Assemble the record from already-collected field values.
    pub fn new(
        firewall_status: String,
        selinux_status: String,
        apparmor_status: String,
        package_updates: String,
        ssh_status: String,
        fail2ban_status: String,
        disk_encryption: String,
        secure_boot: String,
    ) -> (r: SecurityInfo)
        ensures
            r.firewall_status@ == firewall_status@,
            r.selinux_status@ == selinux_status@,
            r.apparmor_status@ == apparmor_status@,
            r.package_updates@ == package_updates@,
            r.ssh_status@ == ssh_status@,
            r.fail2ban_status@ == fail2ban_status@,
            r.disk_encryption@ == disk_encryption@,
            r.secure_boot@ == secure_boot@,
    {
        SecurityInfo {
            firewall_status,
            selinux_status,
            apparmor_status,
            package_updates,
            ssh_status,
            fail2ban_status,
            disk_encryption,
            secure_boot,
        }
    }
}

} // verus!
