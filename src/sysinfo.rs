//! One-shot host facts shown beside the process table.
use vstd::prelude::*;
use vstd::string::*;

verus! {

/// Static description of the host.
pub struct SystemInfo {
    os_version: String,
}

/// The text shown for an operating system name and an architecture.
pub open spec fn os_version_text(os: Seq<char>, arch: Seq<char>) -> Seq<char> {
    os + seq![' '] + arch
}

impl SystemInfo {
    /// An empty description: nothing has been collected yet.
    pub fn new() -> (r: SystemInfo)
        ensures
            r.os_version_view() == Seq::<char>::empty(),
    {
        SystemInfo { os_version: String::new() }
    }

    pub closed spec fn os_version_view(&self) -> Seq<char> {
        self.os_version@
    }

    /// Records the operating system name and architecture of the host,
    /// joined by one space.
    pub fn collect_system_info(&mut self, os: &str, arch: &str)
        ensures
            final(self).os_version_view() == os_version_text(os@, arch@),
    {
        let mut v = String::from_str(os);
        v.append(" ");
        v.append(arch);
        proof {
            reveal_strlit(" ");
        }
        assert(v@ =~= os_version_text(os@, arch@));
        self.os_version = v;
    }

    /// The recorded operating system text.
    pub fn get_os_version(&self) -> (r: &str)
        ensures
            r@ == self.os_version_view(),
    {
        self.os_version.as_str()
    }
}

} // verus!
