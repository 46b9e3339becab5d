use vstd::prelude::*;
use crate::model::{view_all, DistributionFamily, PackageManager, PackageUpdate, PackageUpdateView};
use crate::process::{process_error_text, ProcessError};
use crate::text::{
    chars_of, filter_map, lemma_filter_map_step, lines, next_word, owned, push_str, range_is,
    range_views, split_char, split_char_ranges, split_lines, split_once, split_once_in,
    split_once_str, split_once_str_in, starts_with, starts_with_in, string_of, trim,
    trim_end_class, trim_end_in, trim_in, views, words, CharClass, is_ws, occurs_at,
    lemma_find_at, lemma_find_str_at, lemma_trim_unchanged, lemma_words_lead,
    lemma_words_skip_space, lemma_split_char_lead, lemma_lines_one, lemma_lines_two, strip_cr,
    find_str, is_tail_start, lemma_tail_start, is_run_len, lemma_run_len, trim_start_class,
};

verus! {

#[derive(Debug, Clone, PartialEq, Eq)]
pub enum PackageError {
    Process(ProcessError),
}

/// The text that describes a package error.
pub open spec fn package_error_text(e: PackageError) -> Seq<char> {
    match e {
        PackageError::Process(p) => "package manager command failed: "@ + process_error_text(p@),
    }
}

impl PackageError {
    /// The text that describes this error.
    pub fn message(&self) -> (r: String)
        ensures
            r@ == package_error_text(*self),
    {
        match self {
            PackageError::Process(p) => {
                let mut r = owned("package manager command failed: ");
                let m = p.message();
                push_str(&mut r, m.as_str());
                r
            },
        }
    }
}

/// The package managers to look for on a distribution of `family`, most preferred first.
pub open spec fn preference(family: DistributionFamily) -> Seq<PackageManager> {
    match family {
        DistributionFamily::Debian => seq![
            PackageManager::Apt,
            PackageManager::Dnf,
            PackageManager::Pacman,
            PackageManager::Zypper,
        ],
        DistributionFamily::Fedora => seq![
            PackageManager::Dnf,
            PackageManager::Apt,
            PackageManager::Pacman,
            PackageManager::Zypper,
        ],
        DistributionFamily::Arch => seq![
            PackageManager::Pacman,
            PackageManager::Apt,
            PackageManager::Dnf,
            PackageManager::Zypper,
        ],
        DistributionFamily::OpenSuse => seq![
            PackageManager::Zypper,
            PackageManager::Apt,
            PackageManager::Dnf,
            PackageManager::Pacman,
        ],
        DistributionFamily::Unknown => seq![
            PackageManager::Apt,
            PackageManager::Dnf,
            PackageManager::Pacman,
            PackageManager::Zypper,
        ],
    }
}

/// The first of `prefs` that is available, or `Unknown` when none is.
pub open spec fn first_available(prefs: Seq<PackageManager>, available: Seq<PackageManager>) -> PackageManager
    decreases prefs.len(),
{
    if prefs.len() == 0 {
        PackageManager::Unknown
    } else if available.contains(prefs[0]) {
        prefs[0]
    } else {
        first_available(prefs.drop_first(), available)
    }
}

fn is_available(available: &Vec<PackageManager>, m: PackageManager) -> (r: bool)
    ensures
        r == available@.contains(m),
{
    let mut i: usize = 0;
    while i < available.len()
        invariant
            0 <= i <= available.len(),
            forall|j: int| 0 <= j < i ==> available@[j] != m,
        decreases available.len() - i,
    {
        if available[i] == m {
            assert(available@[i as int] == m);
            return true;
        }
        i += 1;
    }
    false
}

/// The package manager to use on a distribution of `family`: the most preferred
/// of those whose command is installed (`available`), or `Unknown`.
pub fn detect(family: &DistributionFamily, available: &Vec<PackageManager>) -> (r: PackageManager)
    ensures
        r == first_available(preference(*family), available@),
{
    let prefs: Vec<PackageManager> = match family {
        DistributionFamily::Debian => vec![
            PackageManager::Apt,
            PackageManager::Dnf,
            PackageManager::Pacman,
            PackageManager::Zypper,
        ],
        DistributionFamily::Fedora => vec![
            PackageManager::Dnf,
            PackageManager::Apt,
            PackageManager::Pacman,
            PackageManager::Zypper,
        ],
        DistributionFamily::Arch => vec![
            PackageManager::Pacman,
            PackageManager::Apt,
            PackageManager::Dnf,
            PackageManager::Zypper,
        ],
        DistributionFamily::OpenSuse => vec![
            PackageManager::Zypper,
            PackageManager::Apt,
            PackageManager::Dnf,
            PackageManager::Pacman,
        ],
        DistributionFamily::Unknown => vec![
            PackageManager::Apt,
            PackageManager::Dnf,
            PackageManager::Pacman,
            PackageManager::Zypper,
        ],
    };
    assert(prefs@ =~= preference(*family));
    assert(prefs@.skip(0) =~= prefs@);
    let mut i: usize = 0;
    while i < prefs.len()
        invariant
            0 <= i <= prefs.len(),
            first_available(preference(*family), available@) == first_available(
                prefs@.skip(i as int),
                available@,
            ),
        decreases prefs.len() - i,
    {
        assert(prefs@.skip(i as int).drop_first() =~= prefs@.skip(i + 1));
        if is_available(available, prefs[i]) {
            return prefs[i];
        }
        i += 1;
    }
    PackageManager::Unknown
}

pub proof fn lemma_first_available(prefs: Seq<PackageManager>, available: Seq<PackageManager>)
    requires
        forall|i: int| 0 <= i < prefs.len() ==> prefs[i] != PackageManager::Unknown,
    ensures
        first_available(prefs, available) != PackageManager::Unknown ==> available.contains(
            first_available(prefs, available),
        ) && prefs.contains(first_available(prefs, available)),
        first_available(prefs, available) == PackageManager::Unknown ==> forall|i: int|
            0 <= i < prefs.len() && prefs[i] != PackageManager::Unknown ==> !available.contains(
                #[trigger] prefs[i],
            ),
        forall|i: int|
            0 <= i < prefs.len() && available.contains(#[trigger] prefs[i]) ==> first_available(
                prefs,
                available,
            ) == prefs[i] || exists|j: int|
                0 <= j < i && available.contains(prefs[j]) && first_available(prefs, available)
                    == prefs[j],
    decreases prefs.len(),
{
    if prefs.len() > 0 {
        let rest = prefs.drop_first();
        assert forall|i: int| 0 <= i < rest.len() implies rest[i] != PackageManager::Unknown by {
            assert(rest[i] == prefs[i + 1]);
        }
        lemma_first_available(rest, available);
        if !available.contains(prefs[0]) {
            let r = first_available(rest, available);
            if r != PackageManager::Unknown {
                let k = choose|k: int| 0 <= k < rest.len() && rest[k] == r;
                assert(prefs[k + 1] == r);
            }
            assert forall|i: int|
                0 <= i < prefs.len() && available.contains(#[trigger] prefs[i]) implies r == prefs[i]
                || exists|j: int| 0 <= j < i && available.contains(prefs[j]) && r == prefs[j] by {
                assert(i > 0);
                assert(rest[i - 1] == prefs[i]);
                if r != prefs[i] {
                    let j = choose|j: int|
                        0 <= j < i - 1 && available.contains(rest[j]) && r == rest[j];
                    assert(prefs[j + 1] == rest[j]);
                }
            }
            assert forall|i: int|
                0 <= i < prefs.len() && prefs[i] != PackageManager::Unknown && r
                    == PackageManager::Unknown implies !available.contains(#[trigger] prefs[i]) by {
                if i > 0 {
                    assert(rest[i - 1] == prefs[i]);
                }
            }
        } else {
            assert(prefs.contains(prefs[0]));
        }
    }
}

/// The detected package manager is installed and preferred for the family;
/// `Unknown` means none of the family's preferred managers is installed; and
/// no installed manager is passed over for one that is less preferred.
pub proof fn detected_manager_is_installed(
    family: DistributionFamily,
    available: Seq<PackageManager>,
)
    ensures
        ({
            let r = first_available(preference(family), available);
            &&& r != PackageManager::Unknown ==> available.contains(r) && preference(
                family,
            ).contains(r)
            &&& r == PackageManager::Unknown ==> forall|i: int|
                0 <= i < 4 ==> !available.contains(#[trigger] preference(family)[i])
            &&& forall|i: int|
                0 <= i < 4 && available.contains(#[trigger] preference(family)[i]) ==> r
                    == preference(family)[i] || exists|j: int|
                    0 <= j < i && available.contains(preference(family)[j]) && r == preference(
                        family,
                    )[j]
        }),
{
    assert(preference(family).len() == 4);
    lemma_first_available(preference(family), available);
}

/// A fixed, read-only command that lists pending updates.
pub struct UpdateCommand {
    pub program: String,
    pub args: Vec<String>,
}

/// The program and arguments of the update check for `manager`.
pub open spec fn update_command_of(manager: PackageManager) -> Option<(Seq<char>, Seq<Seq<char>>)> {
    match manager {
        PackageManager::Apt => Some(("apt"@, seq!["list"@, "--upgradable"@])),
        PackageManager::Dnf => Some(("dnf"@, seq!["check-update"@, "--refresh"@])),
        PackageManager::Pacman => Some(("pacman"@, seq!["-Qu"@])),
        PackageManager::Zypper => Some(("zypper"@, seq!["--non-interactive"@, "list-updates"@])),
        PackageManager::Unknown => None,
    }
}

/// The command that lists the pending updates of `manager`; none for `Unknown`.
pub fn update_command(manager: &PackageManager) -> (r: Option<UpdateCommand>)
    ensures
        match r {
            Some(c) => update_command_of(*manager) == Some((c.program@, view_all(c.args@))),
            None => update_command_of(*manager) is None,
        },
{
    let (program, args) = match manager {
        PackageManager::Apt => (owned("apt"), vec![owned("list"), owned("--upgradable")]),
        PackageManager::Dnf => (owned("dnf"), vec![owned("check-update"), owned("--refresh")]),
        PackageManager::Pacman => (owned("pacman"), vec![owned("-Qu")]),
        PackageManager::Zypper => (
            owned("zypper"),
            vec![owned("--non-interactive"), owned("list-updates")],
        ),
        PackageManager::Unknown => return None,
    };
    assert(view_all(args@) =~= update_command_of(*manager).unwrap().1);
    Some(UpdateCommand { program, args })
}

/// Whether a failure is one that `allowed` lets through: an exit with one of those codes.
pub open spec fn tolerated(e: ProcessError, allowed: Seq<i32>) -> bool {
    match e {
        ProcessError::Failed { code: Some(c), .. } => allowed.contains(c),
        _ => false,
    }
}

fn contains_code(allowed: &[i32], c: i32) -> (r: bool)
    ensures
        r == allowed@.contains(c),
{
    let mut i: usize = 0;
    while i < allowed.len()
        invariant
            0 <= i <= allowed@.len(),
            forall|j: int| 0 <= j < i ==> allowed@[j] != c,
        decreases allowed@.len() - i,
    {
        if allowed[i] == c {
            assert(allowed@[i as int] == c);
            return true;
        }
        i += 1;
    }
    false
}

/// The standard output and error output of a failed command, joined by a newline.
pub open spec fn joined_output(e: ProcessError) -> Seq<char> {
    match e {
        ProcessError::Failed { stdout, stderr, .. } => stdout@ + "\n"@ + stderr@,
        ProcessError::Start { .. } => Seq::empty(),
    }
}

/// The output of a command that may also exit with one of the `allowed` codes:
/// on such an exit, its standard output and error output joined by a newline;
/// any other failure becomes a package error.
pub fn run_allowing_exit(output: Result<String, ProcessError>, allowed: &[i32]) -> (r: Result<
    String,
    PackageError,
>)
    ensures
        match output {
            Ok(o) => r matches Ok(s) && s@ == o@,
            Err(e) => if tolerated(e, allowed@) {
                r matches Ok(s) && s@ == joined_output(e)
            } else {
                r == Err::<String, PackageError>(PackageError::Process(e))
            },
        },
{
    match output {
        Ok(o) => Ok(o),
        Err(e) => {
            let code = match &e {
                ProcessError::Failed { code: Some(c), .. } => Some(*c),
                _ => None,
            };
            if let Some(c) = code {
                if contains_code(allowed, c) {
                    if let ProcessError::Failed { stdout, stderr, .. } = e {
                        let mut s = stdout;
                        push_str(&mut s, "\n");
                        push_str(&mut s, stderr.as_str());
                        return Ok(s);
                    }
                }
            }
            Err(PackageError::Process(e))
        },
    }
}


/// The second piece of `s` split at `p`: what stands between the first `p`
/// and the next one (or the end).
pub open spec fn second_piece(s: Seq<char>, p: Seq<char>) -> Option<Seq<char>> {
    match split_once_str(s, p) {
        Some((_, after)) => Some(
            match split_once_str(after, p) {
                Some((piece, _)) => piece,
                None => after,
            },
        ),
        None => None,
    }
}

/// The update that one line of `apt list --upgradable` describes:
/// `package/suite candidate arch [upgradable from: installed]`.
pub open spec fn apt_entry(line: Seq<char>) -> Option<PackageUpdateView> {
    match split_once(line, '/') {
        Some((package, rest)) => {
            let w = words(rest);
            if w.len() >= 2 {
                Some(
                    PackageUpdateView {
                        package,
                        installed_version: match second_piece(rest, "[upgradable from:"@) {
                            Some(v) => Some(trim(trim_end_class(v, CharClass::Is(']')))),
                            None => None,
                        },
                        candidate_version: Some(w[1]),
                        source: "APT repository"@,
                    },
                )
            } else {
                None
            }
        },
        None => None,
    }
}

/// The update that one line of `dnf check-update` describes: a package and
/// its candidate version, the first two columns of a line that has them and
/// that is not one of the `Last`, `Obsoleting` or `Security` lines.
pub open spec fn dnf_entry(line: Seq<char>) -> Option<PackageUpdateView> {
    let c = words(line);
    if c.len() >= 2 && c[0] != "Last"@ && c[0] != "Obsoleting"@ && c[0] != "Security"@ {
        Some(
            PackageUpdateView {
                package: c[0],
                installed_version: None,
                candidate_version: Some(c[1]),
                source: "DNF repository"@,
            },
        )
    } else {
        None
    }
}

/// The update that one line of `pacman -Qu` describes: `package installed -> candidate`.
pub open spec fn pacman_entry(line: Seq<char>) -> Option<PackageUpdateView> {
    match split_once(line, ' ') {
        Some((package, versions)) => match split_once_str(trim(versions), " -> "@) {
            Some((installed, candidate)) => Some(
                PackageUpdateView {
                    package,
                    installed_version: Some(installed),
                    candidate_version: Some(candidate),
                    source: "Pacman repository"@,
                },
            ),
            None => None,
        },
        None => None,
    }
}

/// The update that one row of `zypper list-updates` describes: a row that
/// starts with `v |` and has at least five `|`-separated columns (status,
/// package, installed version, candidate version, repository), each trimmed.
pub open spec fn zypper_entry(line: Seq<char>) -> Option<PackageUpdateView> {
    let c = split_char(line, '|');
    if starts_with(line, "v |"@) && c.len() >= 5 {
        Some(
            PackageUpdateView {
                package: trim(c[1]),
                installed_version: Some(trim(c[2])),
                candidate_version: Some(trim(c[3])),
                source: trim(c[4]),
            },
        )
    } else {
        None
    }
}

/// The update that one line of the update listing of `manager` describes.
pub open spec fn update_entry(manager: PackageManager, line: Seq<char>) -> Option<PackageUpdateView> {
    match manager {
        PackageManager::Apt => apt_entry(line),
        PackageManager::Dnf => dnf_entry(line),
        PackageManager::Pacman => pacman_entry(line),
        PackageManager::Zypper => zypper_entry(line),
        PackageManager::Unknown => None,
    }
}

/// The updates that a sequence of listing lines of `manager` describes, in order.
pub open spec fn updates_of_lines(manager: PackageManager, ls: Seq<Seq<char>>) -> Seq<
    PackageUpdateView,
> {
    filter_map(ls, |l: Seq<char>| update_entry(manager, l))
}

/// The lines of an update listing that hold updates: APT's listing begins
/// with a header line, which is skipped.
pub open spec fn listing_lines(manager: PackageManager, text: Seq<char>) -> Seq<Seq<char>> {
    if manager == PackageManager::Apt && lines(text).len() > 0 {
        lines(text).drop_first()
    } else {
        lines(text)
    }
}

/// The updates that the update listing `text` of `manager` describes, in order.
pub open spec fn package_updates(manager: PackageManager, text: Seq<char>) -> Seq<PackageUpdateView> {
    updates_of_lines(manager, listing_lines(manager, text))
}

fn apt_entry_of(line: &Vec<char>) -> (r: Option<PackageUpdate>)
    ensures
        match r {
            Some(u) => apt_entry(line@) == Some(u@),
            None => apt_entry(line@) is None,
        },
{
    let n = line.len();
    assert(line@.subrange(0, n as int) =~= line@);
    let slash = match split_once_in(line, 0, n, '/') {
        Some(i) => i,
        None => return None,
    };
    let start = slash + 1;
    let (_a1, b1) = match next_word(line, start, n) {
        Some(w) => w,
        None => return None,
    };
    let (a2, b2) = match next_word(line, b1, n) {
        Some(w) => w,
        None => return None,
    };
    let marker = chars_of("[upgradable from:");
    let installed = match split_once_str_in(line, start, n, &marker) {
        Some(i1) => {
            let st = i1 + marker.len();
            let end = match split_once_str_in(line, st, n, &marker) {
                Some(i2) => i2,
                None => n,
            };
            let e = trim_end_in(line, st, end, CharClass::Is(']'));
            let (x, y) = trim_in(line, st, e, CharClass::Space);
            Some(string_of(line, x, y))
        },
        None => None,
    };
    Some(
        PackageUpdate {
            package: string_of(line, 0, slash),
            installed_version: installed,
            candidate_version: Some(string_of(line, a2, b2)),
            source: owned("APT repository"),
        },
    )
}

fn dnf_entry_of(line: &Vec<char>) -> (r: Option<PackageUpdate>)
    ensures
        match r {
            Some(u) => dnf_entry(line@) == Some(u@),
            None => dnf_entry(line@) is None,
        },
{
    let n = line.len();
    assert(line@.subrange(0, n as int) =~= line@);
    let (a1, b1) = match next_word(line, 0, n) {
        Some(w) => w,
        None => return None,
    };
    let (a2, b2) = match next_word(line, b1, n) {
        Some(w) => w,
        None => return None,
    };
    if range_is(line, a1, b1, "Last") || range_is(line, a1, b1, "Obsoleting") || range_is(
        line,
        a1,
        b1,
        "Security",
    ) {
        return None;
    }
    Some(
        PackageUpdate {
            package: string_of(line, a1, b1),
            installed_version: None,
            candidate_version: Some(string_of(line, a2, b2)),
            source: owned("DNF repository"),
        },
    )
}

fn pacman_entry_of(line: &Vec<char>) -> (r: Option<PackageUpdate>)
    ensures
        match r {
            Some(u) => pacman_entry(line@) == Some(u@),
            None => pacman_entry(line@) is None,
        },
{
    let n = line.len();
    assert(line@.subrange(0, n as int) =~= line@);
    let space = match split_once_in(line, 0, n, ' ') {
        Some(i) => i,
        None => return None,
    };
    let (a, b) = trim_in(line, space + 1, n, CharClass::Space);
    let arrow = chars_of(" -> ");
    let at = match split_once_str_in(line, a, b, &arrow) {
        Some(i) => i,
        None => return None,
    };
    Some(
        PackageUpdate {
            package: string_of(line, 0, space),
            installed_version: Some(string_of(line, a, at)),
            candidate_version: Some(string_of(line, at + arrow.len(), b)),
            source: owned("Pacman repository"),
        },
    )
}

fn trimmed_column(line: &Vec<char>, col: (usize, usize)) -> (r: String)
    requires
        col.0 <= col.1 <= line.len(),
    ensures
        r@ == trim(line@.subrange(col.0 as int, col.1 as int)),
{
    let (a, b) = trim_in(line, col.0, col.1, CharClass::Space);
    string_of(line, a, b)
}

fn zypper_entry_of(line: &Vec<char>) -> (r: Option<PackageUpdate>)
    ensures
        match r {
            Some(u) => zypper_entry(line@) == Some(u@),
            None => zypper_entry(line@) is None,
        },
{
    let n = line.len();
    assert(line@.subrange(0, n as int) =~= line@);
    let prefix = chars_of("v |");
    if !starts_with_in(line, 0, n, &prefix) {
        return None;
    }
    let cols = split_char_ranges(line, 0, n, '|');
    proof {
        assert(cols@.len() == range_views(line@, cols@).len());
    }
    if cols.len() < 5 {
        return None;
    }
    proof {
        assert(range_views(line@, cols@)[1] == line@.subrange(cols@[1].0 as int, cols@[1].1 as int));
        assert(range_views(line@, cols@)[2] == line@.subrange(cols@[2].0 as int, cols@[2].1 as int));
        assert(range_views(line@, cols@)[3] == line@.subrange(cols@[3].0 as int, cols@[3].1 as int));
        assert(range_views(line@, cols@)[4] == line@.subrange(cols@[4].0 as int, cols@[4].1 as int));
    }
    Some(
        PackageUpdate {
            package: trimmed_column(line, cols[1]),
            installed_version: Some(trimmed_column(line, cols[2])),
            candidate_version: Some(trimmed_column(line, cols[3])),
            source: trimmed_column(line, cols[4]),
        },
    )
}

fn entry_of(manager: PackageManager, line: &Vec<char>) -> (r: Option<PackageUpdate>)
    ensures
        match r {
            Some(u) => update_entry(manager, line@) == Some(u@),
            None => update_entry(manager, line@) is None,
        },
{
    match manager {
        PackageManager::Apt => apt_entry_of(line),
        PackageManager::Dnf => dnf_entry_of(line),
        PackageManager::Pacman => pacman_entry_of(line),
        PackageManager::Zypper => zypper_entry_of(line),
        PackageManager::Unknown => None,
    }
}

/// The updates that an update listing of `manager` describes.
fn parse_listing(manager: PackageManager, output: &str) -> (r: Vec<PackageUpdate>)
    ensures
        view_all(r@) == package_updates(manager, output@),
{
    let records = split_lines(&chars_of(output));
    let ghost all = views(records@);
    let first: usize = if manager == PackageManager::Apt && records.len() > 0 {
        1
    } else {
        0
    };
    let ghost ls = all.skip(first as int);
    assert(ls =~= listing_lines(manager, output@));
    let mut out: Vec<PackageUpdate> = Vec::new();
    let mut i: usize = first;
    while i < records.len()
        invariant
            first <= i <= records.len(),
            first <= 1,
            all == views(records@),
            ls == all.skip(first as int),
            view_all(out@) == updates_of_lines(manager, ls.take(i - first)),
        decreases records.len() - i,
    {
        let ghost before = out@;
        proof {
            lemma_filter_map_step(ls, i - first, |l: Seq<char>| update_entry(manager, l));
            assert(ls[i - first] == records@[i as int]@);
        }
        match entry_of(manager, &records[i]) {
            Some(u) => {
                out.push(u);
                proof {
                    assert(view_all(out@) =~= view_all(before).push(out@.last()@));
                }
            },
            None => {},
        }
        i += 1;
    }
    assert(ls.take(records@.len() - first) =~= ls);
    out
}

/// The updates that the output of `apt list --upgradable` lists.
pub fn parse_apt(output: &str) -> (r: Vec<PackageUpdate>)
    ensures
        view_all(r@) == package_updates(PackageManager::Apt, output@),
{
    parse_listing(PackageManager::Apt, output)
}

/// The updates that the output of `dnf check-update` lists.
pub fn parse_dnf(output: &str) -> (r: Vec<PackageUpdate>)
    ensures
        view_all(r@) == package_updates(PackageManager::Dnf, output@),
{
    parse_listing(PackageManager::Dnf, output)
}

/// The updates that the output of `pacman -Qu` lists.
pub fn parse_pacman(output: &str) -> (r: Vec<PackageUpdate>)
    ensures
        view_all(r@) == package_updates(PackageManager::Pacman, output@),
{
    parse_listing(PackageManager::Pacman, output)
}

/// The updates that the output of `zypper list-updates` lists.
pub fn parse_zypper(output: &str) -> (r: Vec<PackageUpdate>)
    ensures
        view_all(r@) == package_updates(PackageManager::Zypper, output@),
{
    parse_listing(PackageManager::Zypper, output)
}


/// The exit code with which `dnf check-update` reports that updates are pending.
pub open spec fn dnf_updates_pending() -> Seq<i32> {
    seq![100i32]
}

/// The listing that `check_updates` reads for `manager`, given what the update
/// command gave: the output of a successful run, and for DNF also the joined
/// output of a run that exited with code 100.
pub open spec fn accepted_text(manager: PackageManager, output: Result<String, ProcessError>) -> Option<
    Seq<char>,
> {
    match output {
        Ok(t) => Some(t@),
        Err(e) => if manager == PackageManager::Dnf && tolerated(e, dnf_updates_pending()) {
            Some(joined_output(e))
        } else {
            None
        },
    }
}

/// The pending package updates of `manager`, given what its update command
/// (see `update_command`) gave. `Unknown` has no command and no updates; its
/// `output` is not consulted. A failed run is a package error, except that
/// DNF's exit code 100 announces updates.
pub fn check_updates(manager: &PackageManager, output: Result<String, ProcessError>) -> (r: Result<
    Vec<PackageUpdate>,
    PackageError,
>)
    ensures
        *manager == PackageManager::Unknown ==> (r matches Ok(u) && u@.len() == 0),
        *manager != PackageManager::Unknown ==> match accepted_text(*manager, output) {
            Some(t) => r matches Ok(u) && view_all(u@) == package_updates(*manager, t),
            None => match output {
                Err(e) => r == Err::<Vec<PackageUpdate>, PackageError>(PackageError::Process(e)),
                Ok(_) => false,
            },
        },
{
    match manager {
        PackageManager::Unknown => Ok(Vec::new()),
        PackageManager::Dnf => {
            let allowed: [i32; 1] = [100];
            assert(allowed@ =~= dnf_updates_pending());
            match run_allowing_exit(output, &allowed) {
                Ok(t) => Ok(parse_dnf(t.as_str())),
                Err(e) => Err(e),
            }
        },
        _ => match output {
            Ok(t) => Ok(parse_listing(*manager, t.as_str())),
            Err(e) => Err(PackageError::Process(e)),
        },
    }
}


/// A `pacman -Qu` line `package installed -> candidate` names the package
/// (the text before the first space), the installed version and the candidate
/// version, for any package name without whitespace and any non-empty
/// versions without whitespace.
pub proof fn pacman_lines_name_package_and_versions(
    package: Seq<char>,
    installed: Seq<char>,
    candidate: Seq<char>,
)
    requires
        forall|i: int| 0 <= i < package.len() ==> !is_ws(#[trigger] package[i]),
        installed.len() > 0,
        forall|i: int| 0 <= i < installed.len() ==> !is_ws(#[trigger] installed[i]),
        candidate.len() > 0,
        forall|i: int| 0 <= i < candidate.len() ==> !is_ws(#[trigger] candidate[i]),
    ensures
        pacman_entry(package + seq![' '] + installed + " -> "@ + candidate) == Some(
            PackageUpdateView {
                package,
                installed_version: Some(installed),
                candidate_version: Some(candidate),
                source: "Pacman repository"@,
            },
        ),
{
    reveal_strlit(" -> ");
    let arrow = " -> "@;
    let rest = installed + arrow + candidate;
    let line = package + seq![' '] + installed + arrow + candidate;
    assert(line =~= package + seq![' '] + rest);
    assert forall|j: int| 0 <= j < package.len() implies line[j] != ' ' by {
        assert(line[j] == package[j]);
    }
    assert(line[package.len() as int] == ' ');
    lemma_find_at(line, ' ', package.len() as int);
    assert(line.take(package.len() as int) =~= package);
    assert(line.skip(package.len() as int + 1) =~= rest);
    assert(rest[0] == installed[0]);
    assert(rest.last() == candidate.last());
    lemma_trim_unchanged(rest);
    let at = installed.len() as int;
    assert(rest.subrange(at, at + 4) =~= arrow);
    assert forall|j: int| 0 <= j < at implies !#[trigger] occurs_at(rest, arrow, j) by {
        if occurs_at(rest, arrow, j) {
            assert(rest.subrange(j, j + 4)[0] == rest[j]);
            assert(rest[j] == installed[j]);
        }
    }
    lemma_find_str_at(rest, arrow, at);
    assert(rest.take(at) =~= installed);
    assert(rest.skip(at + 4) =~= candidate);
}


/// A `dnf check-update` line names the package in its first column and the
/// candidate version in its second, whatever follows them, for any package
/// other than the `Last`, `Obsoleting` and `Security` headings; DNF does not
/// say which version is installed.
pub proof fn dnf_lines_name_package_and_candidate(
    package: Seq<char>,
    version: Seq<char>,
    tail: Seq<char>,
)
    requires
        package.len() > 0,
        forall|i: int| 0 <= i < package.len() ==> !is_ws(#[trigger] package[i]),
        version.len() > 0,
        forall|i: int| 0 <= i < version.len() ==> !is_ws(#[trigger] version[i]),
        tail.len() == 0 || is_ws(tail[0]),
        package != "Last"@,
        package != "Obsoleting"@,
        package != "Security"@,
    ensures
        dnf_entry(package + seq![' '] + version + tail) == Some(
            PackageUpdateView {
                package,
                installed_version: None,
                candidate_version: Some(version),
                source: "DNF repository"@,
            },
        ),
{
    let after = seq![' '] + version + tail;
    assert(package + seq![' '] + version + tail =~= package + after);
    assert(is_ws(' '));
    lemma_words_lead(package, after);
    lemma_words_skip_space(after);
    assert(after.drop_first() =~= version + tail);
    lemma_words_lead(version, tail);
    let w = words(package + after);
    assert(w =~= seq![package] + (seq![version] + words(tail)));
    assert(w[0] == package);
    assert(w[1] == version);
}

/// An `apt list --upgradable` line `package/suite candidate ...` names the
/// package before the first `/` and the candidate version in the second
/// column after it, for any package name without `/` and any suite and
/// candidate without whitespace.
pub proof fn apt_lines_name_package_and_candidate(
    package: Seq<char>,
    suite: Seq<char>,
    candidate: Seq<char>,
    tail: Seq<char>,
)
    requires
        forall|i: int| 0 <= i < package.len() ==> #[trigger] package[i] != '/',
        suite.len() > 0,
        forall|i: int| 0 <= i < suite.len() ==> !is_ws(#[trigger] suite[i]),
        candidate.len() > 0,
        forall|i: int| 0 <= i < candidate.len() ==> !is_ws(#[trigger] candidate[i]),
        tail.len() == 0 || is_ws(tail[0]),
    ensures
        apt_entry(package + seq!['/'] + suite + seq![' '] + candidate + tail) matches Some(u)
            && u.package == package && u.candidate_version == Some(candidate) && u.source
            == "APT repository"@,
{
    let rest = suite + seq![' '] + candidate + tail;
    let line = package + seq!['/'] + suite + seq![' '] + candidate + tail;
    assert(line =~= package + seq!['/'] + rest);
    assert forall|j: int| 0 <= j < package.len() implies line[j] != '/' by {
        assert(line[j] == package[j]);
    }
    assert(line[package.len() as int] == '/');
    lemma_find_at(line, '/', package.len() as int);
    assert(line.take(package.len() as int) =~= package);
    assert(line.skip(package.len() as int + 1) =~= rest);
    let after = seq![' '] + candidate + tail;
    assert(rest =~= suite + after);
    assert(is_ws(' '));
    lemma_words_lead(suite, after);
    lemma_words_skip_space(after);
    assert(after.drop_first() =~= candidate + tail);
    lemma_words_lead(candidate, tail);
    let w = words(rest);
    assert(w =~= seq![suite] + (seq![candidate] + words(tail)));
    assert(w[1] == candidate);
}

/// A `zypper list-updates` row `v |c1|c2|c3|c4...` names the package in its
/// second column, the installed version in its third, the candidate version in
/// its fourth and the repository in its fifth, each trimmed, for any columns
/// without `|`.
pub proof fn zypper_rows_name_their_columns(
    c1: Seq<char>,
    c2: Seq<char>,
    c3: Seq<char>,
    c4: Seq<char>,
    tail: Seq<char>,
)
    requires
        forall|i: int| 0 <= i < c1.len() ==> #[trigger] c1[i] != '|',
        forall|i: int| 0 <= i < c2.len() ==> #[trigger] c2[i] != '|',
        forall|i: int| 0 <= i < c3.len() ==> #[trigger] c3[i] != '|',
        forall|i: int| 0 <= i < c4.len() ==> #[trigger] c4[i] != '|',
        tail.len() == 0 || tail[0] == '|',
    ensures
        zypper_entry(
            "v |"@ + c1 + seq!['|'] + c2 + seq!['|'] + c3 + seq!['|'] + c4 + tail,
        ) == Some(
            PackageUpdateView {
                package: trim(c1),
                installed_version: Some(trim(c2)),
                candidate_version: Some(trim(c3)),
                source: trim(c4),
            },
        ),
{
    reveal_strlit("v |");
    let head = seq!['v', ' '];
    let r4 = c4 + tail;
    let r3 = c3 + seq!['|'] + r4;
    let r2 = c2 + seq!['|'] + r3;
    let r1 = c1 + seq!['|'] + r2;
    let line = "v |"@ + c1 + seq!['|'] + c2 + seq!['|'] + c3 + seq!['|'] + c4 + tail;
    assert(line =~= head + (seq!['|'] + r1));
    assert(head[0] != '|' && head[1] != '|');
    lemma_split_char_lead(head, '|', seq!['|'] + r1);
    assert((seq!['|'] + r1).drop_first() =~= r1);
    assert(r1 =~= c1 + (seq!['|'] + r2));
    lemma_split_char_lead(c1, '|', seq!['|'] + r2);
    assert((seq!['|'] + r2).drop_first() =~= r2);
    assert(r2 =~= c2 + (seq!['|'] + r3));
    lemma_split_char_lead(c2, '|', seq!['|'] + r3);
    assert((seq!['|'] + r3).drop_first() =~= r3);
    assert(r3 =~= c3 + (seq!['|'] + r4));
    lemma_split_char_lead(c3, '|', seq!['|'] + r4);
    assert((seq!['|'] + r4).drop_first() =~= r4);
    lemma_split_char_lead(c4, '|', tail);
    let c = split_char(line, '|');
    assert(c.len() >= 5);
    assert(c[1] == c1);
    assert(c[2] == c2);
    assert(c[3] == c3);
    assert(c[4] == c4);
    assert(line.take(3) =~= "v |"@);
}


/// The updates of a listing of one line are those that line describes, as
/// each manager reads its lines; APT's listing begins with a header line,
/// which describes no update, so that a listing of the header alone lists
/// nothing. (A `None` entry lists no update, a `Some` entry one.)
pub proof fn one_line_listings_give_their_entry(header: Seq<char>, line: Seq<char>)
    requires
        forall|i: int| 0 <= i < header.len() ==> #[trigger] header[i] != '\n' && header[i] != '\r',
        forall|i: int| 0 <= i < line.len() ==> #[trigger] line[i] != '\n' && line[i] != '\r',
    ensures
        package_updates(PackageManager::Apt, header + seq!['\n'] + line + seq!['\n']) == match apt_entry(
            line,
        ) {
            Some(u) => seq![u],
            None => Seq::empty(),
        },
        package_updates(PackageManager::Apt, header + seq!['\n']).len() == 0,
        package_updates(PackageManager::Dnf, line + seq!['\n']) == match dnf_entry(line) {
            Some(u) => seq![u],
            None => Seq::empty(),
        },
        package_updates(PackageManager::Pacman, line + seq!['\n']) == match pacman_entry(line) {
            Some(u) => seq![u],
            None => Seq::empty(),
        },
        package_updates(PackageManager::Zypper, line + seq!['\n']) == match zypper_entry(line) {
            Some(u) => seq![u],
            None => Seq::empty(),
        },
{
    if line.len() > 0 {
        assert(line.last() == line[line.len() - 1]);
    }
    if header.len() > 0 {
        assert(header.last() == header[header.len() - 1]);
    }
    assert(strip_cr(line) == line);
    assert(strip_cr(header) == header);
    lemma_lines_one(line);
    lemma_lines_one(header);
    lemma_lines_two(header, line);
    let one = seq![line];
    assert(one.drop_last() =~= Seq::<Seq<char>>::empty());
    assert(seq![header, line].drop_first() =~= one);
    assert(seq![header].drop_first() =~= Seq::<Seq<char>>::empty());
    let none = Seq::<Seq<char>>::empty();
    assert(updates_of_lines(PackageManager::Apt, none).len() == 0);
    assert(updates_of_lines(PackageManager::Dnf, none).len() == 0);
    assert(updates_of_lines(PackageManager::Pacman, none).len() == 0);
    assert(updates_of_lines(PackageManager::Zypper, none).len() == 0);
    assert(updates_of_lines(PackageManager::Apt, one) =~= match apt_entry(line) {
        Some(u) => seq![u],
        None => Seq::empty(),
    });
    assert(updates_of_lines(PackageManager::Dnf, one) =~= match dnf_entry(line) {
        Some(u) => seq![u],
        None => Seq::empty(),
    });
    assert(updates_of_lines(PackageManager::Pacman, one) =~= match pacman_entry(line) {
        Some(u) => seq![u],
        None => Seq::empty(),
    });
    assert(updates_of_lines(PackageManager::Zypper, one) =~= match zypper_entry(line) {
        Some(u) => seq![u],
        None => Seq::empty(),
    });
}


/// A distribution's own package manager is chosen whenever it is installed:
/// APT on Debian and on unknown distributions, DNF on Fedora, pacman on Arch,
/// zypper on openSUSE; with nothing installed, no manager is known.
pub proof fn native_manager_is_chosen(available: Seq<PackageManager>, family: DistributionFamily)
    ensures
        available.contains(PackageManager::Apt) ==> first_available(
            preference(DistributionFamily::Debian),
            available,
        ) == PackageManager::Apt,
        available.contains(PackageManager::Apt) ==> first_available(
            preference(DistributionFamily::Unknown),
            available,
        ) == PackageManager::Apt,
        available.contains(PackageManager::Dnf) ==> first_available(
            preference(DistributionFamily::Fedora),
            available,
        ) == PackageManager::Dnf,
        available.contains(PackageManager::Pacman) ==> first_available(
            preference(DistributionFamily::Arch),
            available,
        ) == PackageManager::Pacman,
        available.contains(PackageManager::Zypper) ==> first_available(
            preference(DistributionFamily::OpenSuse),
            available,
        ) == PackageManager::Zypper,
        available.len() == 0 ==> first_available(preference(family), available)
            == PackageManager::Unknown,
{
    let p = preference(family);
    assert(p.len() == 4);
    lemma_first_available(p, available);
    if available.len() == 0 {
        assert(!available.contains(first_available(p, available)));
    }
}


/// The text after the `[upgradable from:` marker of an APT line, ` installed]`,
/// holds no second marker and gives the installed version once the `]` and
/// the space are trimmed.
proof fn lemma_apt_installed_piece(installed: Seq<char>)
    requires
        installed.len() > 0,
        forall|i: int| 0 <= i < installed.len() ==> !is_ws(#[trigger] installed[i]) && installed[i]
            != '[' && installed[i] != ']',
    ensures
        split_once_str(seq![' '] + installed + seq![']'], "[upgradable from:"@) is None,
        trim(trim_end_class(seq![' '] + installed + seq![']'], CharClass::Is(']'))) == installed,
{
    reveal_strlit("[upgradable from:");
    let p = "[upgradable from:"@;
    let after = seq![' '] + installed + seq![']'];
    assert(p[0] == '[');
    assert forall|j: int| #![trigger occurs_at(after, p, j)] !occurs_at(after, p, j) by {
        if occurs_at(after, p, j) {
            assert(after.subrange(j, j + 17)[0] == p[0]);
            if j == 0 {
                assert(after[j] == ' ');
            } else if j <= installed.len() {
                assert(after[j] == installed[j - 1]);
            } else {
                assert(after[j] == ']');
            }
        }
    }
    assert(find_str(after, p) is None);
    let n = after.len() as int;
    assert(after[n - 1] == ']');
    assert(after[n - 2] == installed[installed.len() - 1]);
    assert(is_tail_start(after, CharClass::Is(']'), n - 1));
    lemma_tail_start(after, CharClass::Is(']'));
    let v = after.take(n - 1);
    assert(v =~= seq![' '] + installed);
    assert(is_ws(' '));
    assert(is_run_len(v, CharClass::Space, 1)) by {
        assert(v[1] == installed[0]);
    }
    lemma_run_len(v, CharClass::Space);
    assert(trim_start_class(v, CharClass::Space) =~= installed);
    assert(is_tail_start(installed, CharClass::Space, installed.len() as int)) by {
        assert(installed.last() == installed[installed.len() - 1]);
    }
    lemma_tail_start(installed, CharClass::Space);
    assert(installed.take(installed.len() as int) =~= installed);
}

/// The marker `[upgradable from:` first stands where `front` ends, when
/// `front` holds no `[`.
proof fn lemma_apt_marker_at(front: Seq<char>, after: Seq<char>)
    requires
        forall|i: int| 0 <= i < front.len() ==> #[trigger] front[i] != '[',
    ensures
        find_str(front + "[upgradable from:"@ + after, "[upgradable from:"@) == Some(
            front.len() as int,
        ),
{
    reveal_strlit("[upgradable from:");
    let p = "[upgradable from:"@;
    let rest = front + p + after;
    let k = front.len() as int;
    assert(rest.subrange(k, k + 17) =~= p);
    assert(p[0] == '[');
    assert forall|j: int| 0 <= j < k implies !#[trigger] occurs_at(rest, p, j) by {
        if occurs_at(rest, p, j) {
            assert(rest.subrange(j, j + 17)[0] == p[0]);
            assert(rest[j] == front[j]);
        }
    }
    lemma_find_str_at(rest, p, k);
}

/// An `apt list --upgradable` line
/// `package/suite candidate arch [upgradable from: installed]` names the
/// package, the candidate version and the installed version, for any package
/// name without `/`, any suite, candidate and architecture without whitespace
/// or `[`, and any installed version without whitespace or brackets.
pub proof fn apt_lines_name_the_installed_version(
    package: Seq<char>,
    suite: Seq<char>,
    candidate: Seq<char>,
    arch: Seq<char>,
    installed: Seq<char>,
)
    requires
        forall|i: int| 0 <= i < package.len() ==> #[trigger] package[i] != '/',
        suite.len() > 0,
        forall|i: int| 0 <= i < suite.len() ==> !is_ws(#[trigger] suite[i]) && suite[i] != '[',
        candidate.len() > 0,
        forall|i: int| 0 <= i < candidate.len() ==> !is_ws(#[trigger] candidate[i]) && candidate[i]
            != '[',
        arch.len() > 0,
        forall|i: int| 0 <= i < arch.len() ==> !is_ws(#[trigger] arch[i]) && arch[i] != '[',
        installed.len() > 0,
        forall|i: int| 0 <= i < installed.len() ==> !is_ws(#[trigger] installed[i]) && installed[i]
            != '[' && installed[i] != ']',
    ensures
        apt_entry(
            package + seq!['/'] + suite + seq![' '] + candidate + seq![' '] + arch
                + " [upgradable from: "@ + installed + seq![']'],
        ) == Some(
            PackageUpdateView {
                package,
                installed_version: Some(installed),
                candidate_version: Some(candidate),
                source: "APT repository"@,
            },
        ),
{
    reveal_strlit(" [upgradable from: ");
    reveal_strlit("[upgradable from:");
    let p = "[upgradable from:"@;
    let sp = seq![' '];
    let after = sp + installed + seq![']'];
    let front = suite + sp + candidate + sp + arch + sp;
    let tail = sp + arch + sp + p + after;
    let rest = suite + sp + candidate + tail;
    assert(rest =~= front + p + after);
    let line = package + seq!['/'] + suite + seq![' '] + candidate + seq![' '] + arch
        + " [upgradable from: "@ + installed + seq![']'];
    assert(line =~= package + seq!['/'] + rest) by {
        assert(" [upgradable from: "@ =~= sp + p + sp);
    }
    assert(split_once(line, '/') == Some((package, rest))) by {
        assert forall|j: int| 0 <= j < package.len() implies line[j] != '/' by {
            assert(line[j] == package[j]);
        }
        assert(line[package.len() as int] == '/');
        lemma_find_at(line, '/', package.len() as int);
        assert(line.take(package.len() as int) =~= package);
        assert(line.skip(package.len() as int + 1) =~= rest);
    }
    assert(words(rest)[1] == candidate && words(rest).len() >= 2) by {
        assert(is_ws(' '));
        let w1 = sp + candidate + tail;
        assert(rest =~= suite + w1);
        lemma_words_lead(suite, w1);
        lemma_words_skip_space(w1);
        assert(w1.drop_first() =~= candidate + tail);
        lemma_words_lead(candidate, tail);
        assert(words(rest) =~= seq![suite] + (seq![candidate] + words(tail)));
    }
    assert(split_once_str(rest, p) == Some((front, after))) by {
        assert forall|i: int| 0 <= i < front.len() implies #[trigger] front[i] != '[' by {
            let a = suite.len() as int;
            let b = a + 1 + candidate.len();
            let c = b + 1 + arch.len();
            if i < a {
                assert(front[i] == suite[i]);
            } else if i == a || i == b || i == c {
                assert(front[i] == ' ');
            } else if i < b {
                assert(front[i] == candidate[i - a - 1]);
            } else {
                assert(front[i] == arch[i - b - 1]);
            }
        }
        lemma_apt_marker_at(front, after);
        assert(rest.take(front.len() as int) =~= front);
        assert(rest.skip(front.len() as int + 17) =~= after);
    }
    lemma_apt_installed_piece(installed);
}


/// Only a DNF run that exits with code 100, DNF's way of announcing pending
/// updates, is read as a listing despite its failure, and then its standard
/// output and error output joined by a newline are read; every other failed
/// run, of any manager, lists nothing, and a successful run's output is read
/// as it is.
pub proof fn only_dnf_exit_100_lists_updates(manager: PackageManager, e: ProcessError, text: String)
    ensures
        accepted_text(manager, Ok(text)) == Some(text@),
        manager != PackageManager::Dnf ==> accepted_text(manager, Err(e)) is None,
        e matches ProcessError::Failed { code: Some(c), stdout, stderr, .. } ==> (c == 100
            ==> accepted_text(PackageManager::Dnf, Err(e)) == Some(stdout@ + "\n"@ + stderr@)),
        e matches ProcessError::Failed { code: Some(c), .. } ==> (c != 100 ==> accepted_text(
            PackageManager::Dnf,
            Err(e),
        ) is None),
        e matches ProcessError::Failed { code: None, .. } ==> accepted_text(
            PackageManager::Dnf,
            Err(e),
        ) is None,
        e matches ProcessError::Start { .. } ==> accepted_text(PackageManager::Dnf, Err(e)) is None,
{
    assert(dnf_updates_pending() =~= seq![100i32]);
    match e {
        ProcessError::Failed { code: Some(c), .. } => {
            if c != 100 {
                assert(!dnf_updates_pending().contains(c));
            } else {
                assert(dnf_updates_pending()[0] == c);
            }
        },
        _ => {},
    }
}

} // verus!
