use vstd::prelude::*;
use crate::model::{view_all, KernelStatus, PackageUpdate, PackageUpdateView};
use crate::text::{
    chars_of, contains, contains_str, filter_map, lemma_filter_map_len, lemma_filter_map_step,
    starts_with, starts_with_in, string_of, strip_prefixes, strip_prefixes_in,
};

verus! {

/// The kernel version that a file name in `/boot` announces: the name of a
/// `vmlinuz-` image without its leading `vmlinuz-` prefixes.
pub open spec fn kernel_entry(name: Seq<char>) -> Option<Seq<char>> {
    if starts_with(name, "vmlinuz-"@) {
        Some(strip_prefixes(name, "vmlinuz-"@))
    } else {
        None
    }
}

/// The installed kernels that the file names in `/boot` announce, in order.
pub open spec fn installed_kernels(names: Seq<Seq<char>>) -> Seq<Seq<char>> {
    filter_map(names, |n: Seq<char>| kernel_entry(n))
}

/// Whether an update concerns the kernel: its package name contains
/// `linux-image` or `kernel`.
pub open spec fn is_kernel_update(u: PackageUpdateView) -> bool {
    contains_str(u.package, "linux-image"@) || contains_str(u.package, "kernel"@)
}

/// The kernel updates among `us`, in order.
pub open spec fn kernel_updates(us: Seq<PackageUpdateView>) -> Seq<PackageUpdateView> {
    filter_map(
        us,
        |u: PackageUpdateView|
            if is_kernel_update(u) {
                Some(u)
            } else {
                None
            },
    )
}

/// The kernel status: the running kernel, the kernels installed in `/boot`
/// (given the names of its entries), and the kernel updates among `updates`.
pub fn status(running: &str, boot_entries: &Vec<String>, updates: &Vec<PackageUpdate>) -> (r:
    KernelStatus)
    ensures
        r.running@ == running@,
        view_all(r.installed@) == installed_kernels(view_all(boot_entries@)),
        view_all(r.updates@) == kernel_updates(view_all(updates@)),
{
    let prefix = chars_of("vmlinuz-");
    let ghost names = view_all(boot_entries@);
    let mut installed: Vec<String> = Vec::new();
    let mut i: usize = 0;
    while i < boot_entries.len()
        invariant
            0 <= i <= boot_entries.len(),
            names == view_all(boot_entries@),
            prefix@ == "vmlinuz-"@,
            view_all(installed@) == installed_kernels(names.take(i as int)),
        decreases boot_entries.len() - i,
    {
        let ghost before = installed@;
        proof {
            lemma_filter_map_step(names, i as int, |n: Seq<char>| kernel_entry(n));
        }
        let name = chars_of(boot_entries[i].as_str());
        let n = name.len();
        assert(name@.subrange(0, n as int) =~= name@);
        if starts_with_in(&name, 0, n, &prefix) {
            let a = strip_prefixes_in(&name, 0, n, &prefix);
            installed.push(string_of(&name, a, n));
            proof {
                assert(view_all(installed@) =~= view_all(before).push(installed@.last()@));
            }
        }
        i += 1;
    }
    assert(names.take(boot_entries@.len() as int) =~= names);
    let ghost us = view_all(updates@);
    let mut kernel: Vec<PackageUpdate> = Vec::new();
    let mut j: usize = 0;
    while j < updates.len()
        invariant
            0 <= j <= updates.len(),
            us == view_all(updates@),
            view_all(kernel@) == kernel_updates(us.take(j as int)),
        decreases updates.len() - j,
    {
        let ghost before = kernel@;
        proof {
            lemma_filter_map_step(
                us,
                j as int,
                |u: PackageUpdateView|
                    if is_kernel_update(u) {
                        Some(u)
                    } else {
                        None
                    },
            );
        }
        let u = &updates[j];
        if contains(u.package.as_str(), "linux-image") || contains(u.package.as_str(), "kernel") {
            kernel.push(u.duplicate());
            proof {
                assert(view_all(kernel@) =~= view_all(before).push(kernel@.last()@));
            }
        }
        j += 1;
    }
    assert(us.take(updates@.len() as int) =~= us);
    let running = chars_of(running);
    assert(running@.subrange(0, running@.len() as int) =~= running@);
    KernelStatus { running: string_of(&running, 0, running.len()), installed, updates: kernel }
}

/// Every reported kernel update concerns the kernel, and there are no more
/// of them than there are updates.
pub proof fn kernel_updates_are_kernel_updates(us: Seq<PackageUpdateView>)
    ensures
        kernel_updates(us).len() <= us.len(),
        forall|i: int|
            0 <= i < kernel_updates(us).len() ==> is_kernel_update(#[trigger] kernel_updates(us)[i]),
    decreases us.len(),
{
    lemma_filter_map_len(
        us,
        |u: PackageUpdateView|
            if is_kernel_update(u) {
                Some(u)
            } else {
                None
            },
    );
    if us.len() > 0 {
        kernel_updates_are_kernel_updates(us.drop_last());
    }
}


/// The kernel updates are exactly the updates whose package name contains
/// `linux-image` or `kernel`: each reported one does, each such update is
/// reported, and an update whose name contains neither (such as `util-linux`
/// or `linux-firmware`) is not.
pub proof fn kernel_updates_are_the_kernel_packages(us: Seq<PackageUpdateView>)
    ensures
        forall|i: int|
            0 <= i < kernel_updates(us).len() ==> contains_str(
                #[trigger] kernel_updates(us)[i].package,
                "linux-image"@,
            ) || contains_str(kernel_updates(us)[i].package, "kernel"@),
        forall|i: int|
            0 <= i < us.len() ==> (kernel_updates(us).contains(#[trigger] us[i]) <==> (
            contains_str(us[i].package, "linux-image"@) || contains_str(
                us[i].package,
                "kernel"@,
            ))),
    decreases us.len(),
{
    if us.len() > 0 {
        let rest = us.drop_last();
        kernel_updates_are_the_kernel_packages(rest);
        let k = kernel_updates(us);
        let kr = kernel_updates(rest);
        assert forall|i: int| 0 <= i < us.len() implies (kernel_updates(us).contains(
            #[trigger] us[i],
        ) <==> (contains_str(us[i].package, "linux-image"@) || contains_str(
            us[i].package,
            "kernel"@,
        ))) by {
            let wanted = contains_str(us[i].package, "linux-image"@) || contains_str(
                us[i].package,
                "kernel"@,
            );
            if i < rest.len() {
                assert(rest[i] == us[i]);
            }
            if k.contains(us[i]) {
                let j = choose|j: int| 0 <= j < k.len() && k[j] == us[i];
                if j < kr.len() {
                    assert(kr[j] == us[i]);
                }
            }
            if wanted {
                if is_kernel_update(us.last()) {
                    assert(k == kr.push(us.last()));
                    if i == us.len() - 1 {
                        assert(k[kr.len() as int] == us[i]);
                    } else {
                        let j = choose|j: int| 0 <= j < kr.len() && kr[j] == rest[i];
                        assert(k[j] == us[i]);
                    }
                }
            }
        }
    }
}


/// A `/boot` entry `vmlinuz-<version>` announces the installed kernel
/// `<version>`, for any version that does not itself begin with `vmlinuz-`;
/// an entry that does not begin with `vmlinuz-` announces none.
pub proof fn boot_images_name_their_kernel(version: Seq<char>, other: Seq<char>)
    requires
        !starts_with(version, "vmlinuz-"@),
        !starts_with(other, "vmlinuz-"@),
    ensures
        kernel_entry("vmlinuz-"@ + version) == Some(version),
        kernel_entry(other) is None,
{
    reveal_strlit("vmlinuz-");
    let p = "vmlinuz-"@;
    let name = p + version;
    assert(name.take(p.len() as int) =~= p);
    assert(name.skip(p.len() as int) =~= version);
    assert(strip_prefixes(name, p) == strip_prefixes(version, p));
}

} // verus!
