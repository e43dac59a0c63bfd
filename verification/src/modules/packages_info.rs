//! The installed packages, counted by package manager.

use crate::modules::SystemInfo;
use crate::text::{decimal, decimal_text, joined};
use vstd::prelude::*;

verus! {

/// The number of packages that one package manager reports.
pub struct PackageCount {
    pub manager: String,
    pub count: usize,
}

/// What is known of the installed packages: the count and name of the primary
/// package manager, the count over all managers, and the count of each.
pub struct PackagesInfo {
    pub count: usize,
    pub total_count: usize,
    pub manager: String,
    pub packages: Vec<PackageCount>,
}

impl Default for PackagesInfo {
    /// The packages of which nothing is known.
    fn default() -> (unknown: PackagesInfo)
        ensures
            unknown.count == 0,
            unknown.total_count == 0,
            unknown.manager@ == "Unknown"@,
            unknown.packages@ == Seq::<PackageCount>::empty(),
    {
        PackagesInfo {
            count: 0,
            total_count: 0,
            manager: String::from_str("Unknown"),
            packages: Vec::new(),
        }
    }
}

/// The table after the fact `packages_<manager>` was set for each of `counts`, in order.
pub open spec fn manager_facts(
    table: Map<Seq<char>, Seq<char>>,
    counts: Seq<PackageCount>,
) -> Map<Seq<char>, Seq<char>>
    decreases counts.len(),
{
    if counts.len() == 0 {
        table
    } else {
        manager_facts(table, counts.drop_last()).insert(
            "packages_"@ + counts.last().manager@,
            decimal(counts.last().count as nat),
        )
    }
}

/// The table after the facts of `packages` were set.
pub open spec fn packages_facts(
    table: Map<Seq<char>, Seq<char>>,
    packages: PackagesInfo,
) -> Map<Seq<char>, Seq<char>> {
    manager_facts(
        table.insert("packages_total"@, decimal(packages.total_count as nat)).insert(
            "package_manager"@,
            packages.manager@,
        ).insert("packages"@, decimal(packages.count as nat)),
        packages.packages@,
    )
}

/// Sets the facts `packages_total`, `package_manager` and `packages`, and
/// `packages_<manager>` for each package manager that was counted.
pub fn load_packages_info(info: &mut SystemInfo, packages: &PackagesInfo)
    ensures
        final(info)@ == packages_facts(old(info)@, *packages),
{
    info.insert(String::from_str("packages_total"), decimal_text(packages.total_count as u64));
    info.insert(String::from_str("package_manager"), packages.manager.clone());
    info.insert(String::from_str("packages"), decimal_text(packages.count as u64));
    let ghost base = info@;
    let mut i: usize = 0;
    while i < packages.packages.len()
        invariant
            i <= packages.packages@.len(),
            info@ == manager_facts(base, packages.packages@.take(i as int)),
        decreases packages.packages@.len() - i,
    {
        let entry = &packages.packages[i];
        proof {
            let upto = packages.packages@.take(i + 1);
            assert(upto.drop_last() =~= packages.packages@.take(i as int));
            assert(upto.last() == *entry);
        }
        info.insert(joined("packages_", entry.manager.as_str()), decimal_text(entry.count as u64));
        i += 1;
    }
    assert(packages.packages@.take(i as int) =~= packages.packages@);
}

impl PackagesInfo {
    /// Takes in the count of one package manager. It is added to the total and
    /// to the list of counts; the first manager that is taken in is the primary one.
    pub fn record(&mut self, manager: &str, count: usize)
        requires
            old(self).total_count + count <= usize::MAX,
        ensures
            final(self).total_count == old(self).total_count + count,
            final(self).packages@.len() == old(self).packages@.len() + 1,
            final(self).packages@.drop_last() == old(self).packages@,
            final(self).packages@.last().manager@ == manager@,
            final(self).packages@.last().count == count,
            old(self).packages@.len() == 0 ==> final(self).count == count,
            old(self).packages@.len() == 0 ==> final(self).manager@ == manager@,
            old(self).packages@.len() > 0 ==> final(self).count == old(self).count,
            old(self).packages@.len() > 0 ==> final(self).manager == old(self).manager,
    {
        if self.packages.len() == 0 {
            self.count = count;
            self.manager = String::from_str(manager);
        }
        self.total_count = self.total_count + count;
        self.packages.push(PackageCount { manager: String::from_str(manager), count });
        assert(self.packages@.drop_last() =~= old(self).packages@);
    }
}

} // verus!
