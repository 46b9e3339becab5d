use vstd::prelude::*;
use crate::model::{view_all, DkmsModule, DkmsModuleView};
use crate::process::ProcessError;
use crate::text::{
    chars_of, filter_map, lemma_filter_map_step, lines, split_lines, split_once, split_once_in,
    string_of, trim, trim_in, views, CharClass, is_ws, lemma_find_at, lemma_trim_unchanged,
};

verus! {

/// The module that one line of `dkms status` describes: `name/version, status`,
/// where a status that holds a `:` names the kernel before it.
pub open spec fn dkms_entry(line: Seq<char>) -> Option<DkmsModuleView> {
    match split_once(line, ',') {
        Some((name_version, rest)) => match split_once(trim(name_version), '/') {
            Some((module, version)) => {
                let status = trim(rest);
                Some(
                    DkmsModuleView {
                        module,
                        version: Some(version),
                        kernel: match split_once(status, ':') {
                            Some((kernel, _)) => Some(trim(kernel)),
                            None => None,
                        },
                        status,
                    },
                )
            },
            None => None,
        },
        None => None,
    }
}

/// The modules that the lines of `dkms status` describe, in order.
pub open spec fn dkms_modules(ls: Seq<Seq<char>>) -> Seq<DkmsModuleView> {
    filter_map(ls, |l: Seq<char>| dkms_entry(l))
}

fn entry_of(line: &Vec<char>) -> (r: Option<DkmsModule>)
    ensures
        match r {
            Some(m) => dkms_entry(line@) == Some(m@),
            None => dkms_entry(line@) is None,
        },
{
    let n = line.len();
    assert(line@.subrange(0, n as int) =~= line@);
    let comma = match split_once_in(line, 0, n, ',') {
        Some(c) => c,
        None => return None,
    };
    let (a, b) = trim_in(line, 0, comma, CharClass::Space);
    let slash = match split_once_in(line, a, b, '/') {
        Some(s) => s,
        None => return None,
    };
    let (c, d) = trim_in(line, comma + 1, n, CharClass::Space);
    let kernel = match split_once_in(line, c, d, ':') {
        Some(k) => {
            let (e, f) = trim_in(line, c, k, CharClass::Space);
            Some(string_of(line, e, f))
        },
        None => None,
    };
    Some(
        DkmsModule {
            module: string_of(line, a, slash),
            version: Some(string_of(line, slash + 1, b)),
            kernel,
            status: string_of(line, c, d),
        },
    )
}

/// The module that one line of `dkms status` describes, if the line has the
/// form `name/version, status`.
pub fn parse_line(line: &str) -> (r: Option<DkmsModule>)
    ensures
        match r {
            Some(m) => dkms_entry(line@) == Some(m@),
            None => dkms_entry(line@) is None,
        },
{
    entry_of(&chars_of(line))
}

/// The DKMS modules that `dkms status` reported: none when the command failed,
/// else one per line that describes a module, in order.
pub fn detect(output: Result<String, ProcessError>) -> (r: Vec<DkmsModule>)
    ensures
        match output {
            Ok(text) => view_all(r@) == dkms_modules(lines(text@)),
            Err(_) => r@.len() == 0,
        },
{
    let text = match output {
        Ok(text) => text,
        Err(_) => return Vec::new(),
    };
    let records = split_lines(&chars_of(text.as_str()));
    let ghost ls = views(records@);
    let mut out: Vec<DkmsModule> = Vec::new();
    let mut i: usize = 0;
    while i < records.len()
        invariant
            0 <= i <= records.len(),
            ls == views(records@),
            view_all(out@) == dkms_modules(ls.take(i as int)),
        decreases records.len() - i,
    {
        let ghost before = out@;
        proof {
            lemma_filter_map_step(ls, i as int, |l: Seq<char>| dkms_entry(l));
        }
        match entry_of(&records[i]) {
            Some(m) => {
                out.push(m);
                proof {
                    assert(view_all(out@) =~= view_all(before).push(out@.last()@));
                }
            },
            None => {},
        }
        i += 1;
    }
    assert(ls.take(records@.len() as int) =~= ls);
    out
}


/// A `dkms status` line `module/version,rest` names the module before the
/// `/`, the version between the `/` and the first `,`, and the status that
/// follows, trimmed, for any module and version without whitespace, `/` or
/// `,`.
pub proof fn dkms_lines_name_module_and_version(
    module: Seq<char>,
    version: Seq<char>,
    rest: Seq<char>,
)
    requires
        module.len() > 0,
        forall|i: int| 0 <= i < module.len() ==> !is_ws(#[trigger] module[i]) && module[i] != '/'
            && module[i] != ',',
        version.len() > 0,
        forall|i: int| 0 <= i < version.len() ==> !is_ws(#[trigger] version[i]) && version[i]
            != ',',
    ensures
        dkms_entry(module + seq!['/'] + version + seq![','] + rest) matches Some(m) && m.module
            == module && m.version == Some(version) && m.status == trim(rest),
{
    let nv = module + seq!['/'] + version;
    let line = module + seq!['/'] + version + seq![','] + rest;
    let at = nv.len() as int;
    assert forall|j: int| 0 <= j < at implies line[j] != ',' by {
        if j < module.len() {
            assert(line[j] == module[j]);
        } else if j > module.len() {
            assert(line[j] == version[j - module.len() - 1]);
        }
    }
    assert(line[at] == ',');
    lemma_find_at(line, ',', at);
    assert(line.take(at) =~= nv);
    assert(line.skip(at + 1) =~= rest);
    assert(nv[0] == module[0]);
    assert(nv.last() == version.last());
    lemma_trim_unchanged(nv);
    assert forall|j: int| 0 <= j < module.len() implies nv[j] != '/' by {
        assert(nv[j] == module[j]);
    }
    assert(nv[module.len() as int] == '/');
    lemma_find_at(nv, '/', module.len() as int);
    assert(nv.take(module.len() as int) =~= module);
    assert(nv.skip(module.len() as int + 1) =~= version);
}

} // verus!
