use vstd::prelude::*;
use crate::model::{opt_chars, Distribution, DistributionFamily, DistributionView};
use crate::text::{
    chars_of, filter_map, find_in, lemma_filter_map_step, lines, owned, range_is, split_lines,
    split_once, string_of, trim_class, trim_in, views, CharClass, lemma_find_at, lemma_lines_one,
    lemma_trim_class_unchanged, strip_cr, lemma_lines_two, is_run_len, lemma_run_len, is_tail_start,
    lemma_tail_start,
};

verus! {

#[derive(Debug, Clone, PartialEq, Eq)]
pub enum DistroError {
    /// `/etc/os-release` could not be read; the text is the system's reason.
    Read(String),
}

impl DistroError {
    /// The text that describes this error.
    pub fn message(&self) -> (r: String)
        ensures
            r@ == distro_error_text(*self),
    {
        match self {
            DistroError::Read(m) => {
                let mut r = owned("could not read /etc/os-release: ");
                r.append(m.as_str());
                r
            },
        }
    }
}

/// The text that describes a distribution error.
pub open spec fn distro_error_text(e: DistroError) -> Seq<char> {
    match e {
        DistroError::Read(m) => "could not read /etc/os-release: "@ + m@,
    }
}

/// The key and value of one os-release line: the text before and after its
/// first `=`, the value without the double quotes around it.
pub open spec fn os_release_entry(line: Seq<char>) -> Option<(Seq<char>, Seq<char>)> {
    match split_once(line, '=') {
        Some((key, value)) => Some((key, trim_class(value, CharClass::Is('"')))),
        None => None,
    }
}

/// The entries of the lines that have an `=`, in order.
pub open spec fn os_release_entries(ls: Seq<Seq<char>>) -> Seq<(Seq<char>, Seq<char>)> {
    filter_map(ls, |l: Seq<char>| os_release_entry(l))
}

/// The value of the last entry for `key`: what a map filled in order keeps.
pub open spec fn lookup(entries: Seq<(Seq<char>, Seq<char>)>, key: Seq<char>) -> Option<Seq<char>>
    decreases entries.len(),
{
    if entries.len() == 0 {
        None
    } else if entries.last().0 == key {
        Some(entries.last().1)
    } else {
        lookup(entries.drop_last(), key)
    }
}

/// The family of a distribution id; ids not named here are not guessed.
pub open spec fn family_of(id: Seq<char>) -> DistributionFamily {
    if id == "debian"@ || id == "ubuntu"@ || id == "linuxmint"@ || id == "pop"@ {
        DistributionFamily::Debian
    } else if id == "fedora"@ || id == "nobara"@ {
        DistributionFamily::Fedora
    } else if id == "arch"@ || id == "endeavouros"@ || id == "manjaro"@ {
        DistributionFamily::Arch
    } else if id == "opensuse"@ || id == "opensuse-tumbleweed"@ || id == "opensuse-leap"@ {
        DistributionFamily::OpenSuse
    } else {
        DistributionFamily::Unknown
    }
}

/// The distribution that os-release text describes.
pub open spec fn distribution_of(contents: Seq<char>) -> DistributionView {
    let entries = os_release_entries(lines(contents));
    let id = match lookup(entries, "ID"@) {
        Some(v) => v,
        None => "unknown"@,
    };
    DistributionView {
        id,
        name: match lookup(entries, "PRETTY_NAME"@) {
            Some(v) => v,
            None => "Unknown Linux distribution"@,
        },
        version: lookup(entries, "VERSION_ID"@),
        family: family_of(id),
    }
}

fn family_from(id: &Vec<char>) -> (f: DistributionFamily)
    ensures
        f == family_of(id@),
{
    let n = id.len();
    assert(id@.subrange(0, n as int) =~= id@);
    if range_is(id, 0, n, "debian") || range_is(id, 0, n, "ubuntu") || range_is(id, 0, n, "linuxmint")
        || range_is(id, 0, n, "pop") {
        DistributionFamily::Debian
    } else if range_is(id, 0, n, "fedora") || range_is(id, 0, n, "nobara") {
        DistributionFamily::Fedora
    } else if range_is(id, 0, n, "arch") || range_is(id, 0, n, "endeavouros") || range_is(
        id,
        0,
        n,
        "manjaro",
    ) {
        DistributionFamily::Arch
    } else if range_is(id, 0, n, "opensuse") || range_is(id, 0, n, "opensuse-tumbleweed")
        || range_is(id, 0, n, "opensuse-leap") {
        DistributionFamily::OpenSuse
    } else {
        DistributionFamily::Unknown
    }
}

/// The key and value of one os-release line, as ranges of it.
fn entry_ranges(line: &Vec<char>) -> (r: Option<(usize, usize, usize)>)
    ensures
        match r {
            Some((eq, a, b)) => eq <= a <= b <= line.len() && os_release_entry(line@) == Some(
                (line@.subrange(0, eq as int), line@.subrange(a as int, b as int)),
            ),
            None => os_release_entry(line@) is None,
        },
{
    let n = line.len();
    assert(line@.subrange(0, n as int) =~= line@);
    match find_in(line, 0, n, '=') {
        Some(eq) => {
            let (a, b) = trim_in(line, eq + 1, n, CharClass::Is('"'));
            assert(line@.take(eq as int) =~= line@.subrange(0, eq as int));
            assert(line@.skip(eq + 1) =~= line@.subrange(eq + 1, n as int));
            Some((eq, a, b))
        },
        None => None,
    }
}

/// The distribution that the text of `/etc/os-release` describes. This never fails:
/// a missing `ID` reads as `unknown`, a missing `PRETTY_NAME` as
/// `Unknown Linux distribution`, and ids the library does not know have the
/// `Unknown` family.
pub fn detect_from(contents: &str) -> (r: Result<Distribution, DistroError>)
    ensures
        r matches Ok(d) && d@ == distribution_of(contents@),
{
    let text = chars_of(contents);
    let records = split_lines(&text);
    let ghost ls = views(records@);
    let mut id: Option<String> = None;
    let mut name: Option<String> = None;
    let mut version: Option<String> = None;
    let mut i: usize = 0;
    while i < records.len()
        invariant
            0 <= i <= records.len(),
            ls == views(records@),
            opt_chars(id) == lookup(os_release_entries(ls.take(i as int)), "ID"@),
            opt_chars(name) == lookup(os_release_entries(ls.take(i as int)), "PRETTY_NAME"@),
            opt_chars(version) == lookup(os_release_entries(ls.take(i as int)), "VERSION_ID"@),
        decreases records.len() - i,
    {
        proof {
            lemma_filter_map_step(ls, i as int, |l: Seq<char>| os_release_entry(l));
        }
        let line = &records[i];
        match entry_ranges(line) {
            Some((eq, a, b)) => {
                let ghost entries = os_release_entries(ls.take(i + 1));
                assert(entries.drop_last() =~= os_release_entries(ls.take(i as int)));
                if range_is(line, 0, eq, "ID") {
                    id = Some(string_of(line, a, b));
                }
                if range_is(line, 0, eq, "PRETTY_NAME") {
                    name = Some(string_of(line, a, b));
                }
                if range_is(line, 0, eq, "VERSION_ID") {
                    version = Some(string_of(line, a, b));
                }
            },
            None => {},
        }
        i += 1;
    }
    assert(ls.take(records@.len() as int) =~= ls);
    let id = match id {
        Some(v) => v,
        None => owned("unknown"),
    };
    let id_chars = chars_of(id.as_str());
    let family = family_from(&id_chars);
    let name = match name {
        Some(v) => v,
        None => owned("Unknown Linux distribution"),
    };
    Ok(Distribution { id, name, version, family })
}

/// The distribution that `/etc/os-release` describes, given what reading it
/// gave: its text, or the system's reason why it could not be read. This
/// fails exactly when the file could not be read.
pub fn detect(os_release: Result<String, String>) -> (r: Result<Distribution, DistroError>)
    ensures
        match os_release {
            Ok(c) => r matches Ok(d) && d@ == distribution_of(c@),
            Err(m) => r == Err::<Distribution, DistroError>(DistroError::Read(m)),
        },
{
    match os_release {
        Ok(c) => detect_from(c.as_str()),
        Err(m) => Err(DistroError::Read(m)),
    }
}


/// The family follows from the distribution's id and nothing else: `debian`,
/// `ubuntu`, `linuxmint` and `pop` are Debian; `fedora` and `nobara` Fedora;
/// `arch`, `endeavouros` and `manjaro` Arch; `opensuse`,
/// `opensuse-tumbleweed` and `opensuse-leap` openSUSE; every other id,
/// the default `unknown` among them, is of no known family.
pub proof fn family_follows_the_id(contents: Seq<char>)
    ensures
        ({
            let d = distribution_of(contents);
            &&& (d.id == "debian"@ || d.id == "ubuntu"@ || d.id == "linuxmint"@ || d.id == "pop"@)
                <==> d.family == DistributionFamily::Debian
            &&& (d.id == "fedora"@ || d.id == "nobara"@) <==> d.family == DistributionFamily::Fedora
            &&& (d.id == "arch"@ || d.id == "endeavouros"@ || d.id == "manjaro"@) <==> d.family
                == DistributionFamily::Arch
            &&& (d.id == "opensuse"@ || d.id == "opensuse-tumbleweed"@ || d.id
                == "opensuse-leap"@) <==> d.family == DistributionFamily::OpenSuse
        }),
{
    reveal_strlit("debian");
    reveal_strlit("ubuntu");
    reveal_strlit("linuxmint");
    reveal_strlit("pop");
    reveal_strlit("fedora");
    reveal_strlit("nobara");
    reveal_strlit("arch");
    reveal_strlit("endeavouros");
    reveal_strlit("manjaro");
    reveal_strlit("opensuse");
    reveal_strlit("opensuse-tumbleweed");
    reveal_strlit("opensuse-leap");
    assert("debian"@.len() == 6 && "debian"@[0] == 'd');
    assert("ubuntu"@.len() == 6 && "ubuntu"@[0] == 'u');
    assert("linuxmint"@.len() == 9 && "linuxmint"@[0] == 'l');
    assert("pop"@.len() == 3 && "pop"@[0] == 'p');
    assert("fedora"@.len() == 6 && "fedora"@[0] == 'f');
    assert("nobara"@.len() == 6 && "nobara"@[0] == 'n');
    assert("arch"@.len() == 4 && "arch"@[0] == 'a');
    assert("endeavouros"@.len() == 11 && "endeavouros"@[0] == 'e');
    assert("manjaro"@.len() == 7 && "manjaro"@[0] == 'm');
    assert("opensuse"@.len() == 8 && "opensuse"@[0] == 'o');
    assert("opensuse-tumbleweed"@.len() == 19 && "opensuse-tumbleweed"@[0] == 'o');
    assert("opensuse-leap"@.len() == 13 && "opensuse-leap"@[0] == 'o');
}


/// The os-release text `ID=<id>` of one line names the distribution `<id>`,
/// of the family that `<id>` belongs to, with the default name and no
/// version, for any id without quotes, line breaks or a trailing carriage
/// return. So `ID=debian` is a Debian distribution, `ID=fedora` a Fedora one.
pub proof fn a_single_id_line_names_the_distribution(v: Seq<char>)
    requires
        forall|i: int| 0 <= i < v.len() ==> #[trigger] v[i] != '\n' && v[i] != '"',
        v.len() > 0 ==> v.last() != '\r',
    ensures
        distribution_of("ID="@ + v + seq!['\n']) == (DistributionView {
            id: v,
            name: "Unknown Linux distribution"@,
            version: None,
            family: family_of(v),
        }),
        v == "debian"@ ==> distribution_of("ID="@ + v + seq!['\n']).family
            == DistributionFamily::Debian,
{
    reveal_strlit("ID=");
    reveal_strlit("ID");
    reveal_strlit("PRETTY_NAME");
    reveal_strlit("VERSION_ID");
    reveal_strlit("debian");
    let line = "ID="@ + v;
    assert forall|i: int| 0 <= i < line.len() implies #[trigger] line[i] != '\n' by {
        if i >= 3 {
            assert(line[i] == v[i - 3]);
        }
    }
    lemma_lines_one(line);
    assert("ID="@ + v + seq!['\n'] =~= line + seq!['\n']);
    if line.last() == '\r' {
        assert(line.last() == v.last());
    }
    assert(strip_cr(line) == line);
    assert(line[0] != '=' && line[1] != '=' && line[2] == '=');
    lemma_find_at(line, '=', 2);
    assert(line.take(2) =~= "ID"@);
    assert(line.skip(3) =~= v);
    if v.len() > 0 {
        assert(v[0] != '"' && v[v.len() - 1] != '"');
    }
    lemma_trim_class_unchanged(v, CharClass::Is('"'));
    let f = |l: Seq<char>| os_release_entry(l);
    let ls = seq![line];
    assert(ls.drop_last() =~= Seq::<Seq<char>>::empty());
    assert(os_release_entry(line) == Some(("ID"@, v)));
    assert(filter_map(ls.drop_last(), f) =~= Seq::<(Seq<char>, Seq<char>)>::empty());
    let entries = os_release_entries(ls);
    assert(entries =~= seq![("ID"@, v)]);
    let none = Seq::<(Seq<char>, Seq<char>)>::empty();
    assert(entries.drop_last() =~= none);
    assert(lookup(none, "PRETTY_NAME"@) is None);
    assert(lookup(none, "VERSION_ID"@) is None);
    assert("PRETTY_NAME"@ != "ID"@);
    assert("VERSION_ID"@ != "ID"@);
    assert(lookup(entries, "ID"@) == Some(v));
    assert(lookup(entries, "PRETTY_NAME"@) is None);
    assert(lookup(entries, "VERSION_ID"@) is None);
}


/// The os-release text `ID=<id>` and `PRETTY_NAME="<name>"`, one per line,
/// names the distribution `<id>` with the name `<name>`, the quotes around it
/// taken off, of the family that `<id>` belongs to and with no version, for
/// any id and name without quotes, line breaks or carriage returns.
pub proof fn id_and_pretty_name_lines_name_the_distribution(id: Seq<char>, name: Seq<char>)
    requires
        forall|i: int| 0 <= i < id.len() ==> #[trigger] id[i] != '\n' && id[i] != '"' && id[i]
            != '\r',
        name.len() > 0,
        forall|i: int| 0 <= i < name.len() ==> #[trigger] name[i] != '\n' && name[i] != '"'
            && name[i] != '\r',
    ensures
        distribution_of(
            "ID="@ + id + seq!['\n'] + "PRETTY_NAME="@ + seq!['"'] + name + seq!['"', '\n'],
        ) == (DistributionView { id, name, version: None, family: family_of(id) }),
{
    reveal_strlit("ID=");
    reveal_strlit("ID");
    reveal_strlit("PRETTY_NAME=");
    reveal_strlit("PRETTY_NAME");
    reveal_strlit("VERSION_ID");
    let q = seq!['"'];
    let a = "ID="@ + id;
    let value = q + name + q;
    let b = "PRETTY_NAME="@ + value;
    assert("ID="@ + id + seq!['\n'] + "PRETTY_NAME="@ + seq!['"'] + name + seq!['"', '\n']
        =~= a + seq!['\n'] + b + seq!['\n']);
    assert forall|i: int| 0 <= i < a.len() implies #[trigger] a[i] != '\n' && a[i] != '\r' by {
        if i >= 3 {
            assert(a[i] == id[i - 3]);
        }
    }
    assert forall|i: int| 0 <= i < b.len() implies #[trigger] b[i] != '\n' && b[i] != '\r' by {
        if 13 <= i < 13 + name.len() {
            assert(b[i] == name[i - 13]);
        }
    }
    lemma_lines_two(a, b);
    assert(a.last() == a[a.len() - 1]);
    assert(b.last() == b[b.len() - 1]);
    assert(strip_cr(a) == a);
    assert(strip_cr(b) == b);
    // the id line
    assert(a[0] != '=' && a[1] != '=' && a[2] == '=');
    lemma_find_at(a, '=', 2);
    assert(a.take(2) =~= "ID"@);
    assert(a.skip(3) =~= id);
    if id.len() > 0 {
        assert(id[0] != '"' && id[id.len() - 1] != '"');
    }
    lemma_trim_class_unchanged(id, CharClass::Is('"'));
    assert(os_release_entry(a) == Some(("ID"@, id)));
    // the name line
    assert forall|i: int| 0 <= i < 11 implies b[i] != '=' by {}
    assert(b[11] == '=');
    lemma_find_at(b, '=', 11);
    assert(b.take(11) =~= "PRETTY_NAME"@);
    assert(b.skip(12) =~= value);
    assert(is_run_len(value, CharClass::Is('"'), 1)) by {
        assert(value[1] == name[0]);
    }
    lemma_run_len(value, CharClass::Is('"'));
    let inner = value.skip(1);
    assert(inner =~= name + q);
    assert(is_tail_start(inner, CharClass::Is('"'), name.len() as int)) by {
        assert(inner[name.len() - 1] == name[name.len() - 1]);
    }
    lemma_tail_start(inner, CharClass::Is('"'));
    assert(inner.take(name.len() as int) =~= name);
    assert(os_release_entry(b) == Some(("PRETTY_NAME"@, name)));
    // the lookups
    let f = |l: Seq<char>| os_release_entry(l);
    let ls = seq![a, b];
    assert(ls.drop_last() =~= seq![a]);
    assert(seq![a].drop_last() =~= Seq::<Seq<char>>::empty());
    assert(filter_map(seq![a].drop_last(), f) =~= Seq::<(Seq<char>, Seq<char>)>::empty());
    assert(filter_map(seq![a], f) =~= seq![("ID"@, id)]);
    let entries = os_release_entries(ls);
    assert(entries =~= seq![("ID"@, id), ("PRETTY_NAME"@, name)]);
    let one = seq![("ID"@, id)];
    let none = Seq::<(Seq<char>, Seq<char>)>::empty();
    assert(entries.drop_last() =~= one);
    assert(one.drop_last() =~= none);
    assert("PRETTY_NAME"@ != "ID"@);
    assert("VERSION_ID"@ != "ID"@);
    assert("VERSION_ID"@ != "PRETTY_NAME"@);
    assert(lookup(none, "VERSION_ID"@) is None);
    assert(lookup(one, "VERSION_ID"@) is None);
    assert(lookup(one, "ID"@) == Some(id));
    assert(lookup(entries, "ID"@) == Some(id));
    assert(lookup(entries, "PRETTY_NAME"@) == Some(name));
    assert(lookup(entries, "VERSION_ID"@) is None);
}

} // verus!
