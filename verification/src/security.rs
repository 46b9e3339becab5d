use vstd::prelude::*;
use crate::text::{chars_of, is_ws, range_is};

verus! {

/// An operation that a separately installed, authorized host helper may perform.
#[derive(Debug, Clone, PartialEq, Eq)]
pub enum PrivilegedOperation {
    RefreshRepositories,
    InstallDriver { package_id: String },
    UpdateDriver { package_id: String },
    InstallFirmwareUpdate { device_id: String },
    RepairDkmsModule { module_id: String },
}

/// What an operation will do, shown before it is confirmed.
#[derive(Debug, Clone, PartialEq, Eq)]
pub struct OperationPreview {
    pub operation: PrivilegedOperation,
    pub affected_packages: Vec<String>,
    pub download_bytes: Option<u64>,
    pub reboot_required: bool,
}

pub open spec fn is_ascii_alphanumeric(c: char) -> bool {
    ('a' <= c && c <= 'z') || ('A' <= c && c <= 'Z') || ('0' <= c && c <= '9')
}

/// A character that may stand in a package identifier: an ASCII letter or
/// digit, or one of `.:+_@-`.
pub open spec fn id_char(c: char) -> bool {
    is_ascii_alphanumeric(c) || c == '.' || c == ':' || c == '+' || c == '_' || c == '@' || c
        == '-'
}

/// A package identifier that a helper may pass on: one to 255 characters,
/// each of them an identifier character, and not one of the path components
/// `.` and `..`.
pub open spec fn valid_package_id(s: Seq<char>) -> bool {
    &&& 0 < s.len() <= 255
    &&& forall|i: int| 0 <= i < s.len() ==> #[trigger] id_char(s[i])
    &&& s != "."@
    &&& s != ".."@
}

fn is_id_char(c: char) -> (r: bool)
    ensures
        r == id_char(c),
{
    ('a' <= c && c <= 'z') || ('A' <= c && c <= 'Z') || ('0' <= c && c <= '9') || c == '.' || c
        == ':' || c == '+' || c == '_' || c == '@' || c == '-'
}

/// Whether `package_id` is an identifier that a helper may pass to a package
/// manager: non-empty, at most 255 bytes long, made only of ASCII letters,
/// digits and `.:+_@-`, and not one of the path components `.` and `..`.
pub fn validate_package_id(package_id: &str) -> (r: bool)
    ensures
        r == valid_package_id(package_id@),
{
    if package_id.is_empty() {
        return false;
    }
    let chars = chars_of(package_id);
    assert(chars@.subrange(0, chars@.len() as int) =~= chars@);
    let mut all = true;
    let mut i: usize = 0;
    while i < chars.len()
        invariant
            0 <= i <= chars.len(),
            all == forall|j: int| 0 <= j < i ==> #[trigger] id_char(chars@[j]),
        decreases chars.len() - i,
    {
        if !is_id_char(chars[i]) {
            all = false;
        }
        i += 1;
    }
    if all {
        proof {
            assert(vstd::utf8::is_ascii_chars(package_id@)) by {
                assert forall|j: int| 0 <= j < package_id@.len() implies '\0' <= #[trigger] package_id@[j]
                    <= '\u{7f}' by {
                    assert(id_char(chars@[j]));
                }
            }
            vstd::utf8::is_ascii_chars_encode_utf8(package_id@);
        }
    }
    if !(package_id.len() <= 255 && all) {
        return false;
    }
    let n = chars.len();
    !range_is(&chars, 0, n, ".") && !range_is(&chars, 0, n, "..")
}

/// A character that names a path or means something to a shell: a path
/// separator, a shell metacharacter, a quote, or whitespace.
pub open spec fn path_or_shell_char(c: char) -> bool {
    ||| c == '/'
    ||| c == '\\'
    ||| c == ';'
    ||| c == '&'
    ||| c == '|'
    ||| c == '$'
    ||| c == '`'
    ||| c == '<'
    ||| c == '>'
    ||| c == '('
    ||| c == ')'
    ||| c == '{'
    ||| c == '}'
    ||| c == '['
    ||| c == ']'
    ||| c == '*'
    ||| c == '?'
    ||| c == '!'
    ||| c == '#'
    ||| c == '~'
    ||| c == '\''
    ||| c == '"'
    ||| c == '='
    ||| c == '%'
    ||| c == ','
    ||| is_ws(c)
}

/// An identifier that `validate_package_id` accepts holds no path separator,
/// no shell metacharacter, no quote and no whitespace, and is neither `.` nor
/// `..`: it can be neither a path nor a path component nor a piece of shell
/// syntax.
pub proof fn accepted_ids_hold_no_path_or_shell_syntax(s: Seq<char>)
    requires
        valid_package_id(s),
    ensures
        forall|i: int| 0 <= i < s.len() ==> !path_or_shell_char(#[trigger] s[i]),
        s != "."@,
        s != ".."@,
{
    assert forall|i: int| 0 <= i < s.len() implies !path_or_shell_char(#[trigger] s[i]) by {
        assert(id_char(s[i]));
    }
}


/// The identifiers that `validate_package_id` accepts are exactly the texts of
/// one to 255 characters, each an ASCII letter or digit or one of `.`, `:`,
/// `+`, `_`, `@` and `-`, other than `.` and `..`.
pub proof fn package_ids_are_exactly_the_documented_ones(s: Seq<char>)
    ensures
        valid_package_id(s) <==> (1 <= s.len() <= 255 && (forall|i: int|
            0 <= i < s.len() ==> {
                let c = #[trigger] s[i];
                ||| 'a' <= c <= 'z'
                ||| 'A' <= c <= 'Z'
                ||| '0' <= c <= '9'
                ||| c == '.'
                ||| c == ':'
                ||| c == '+'
                ||| c == '_'
                ||| c == '@'
                ||| c == '-'
            }) && s != "."@ && s != ".."@),
{
    assert forall|i: int| 0 <= i < s.len() implies id_char(#[trigger] s[i]) == ({
        let c = s[i];
        ||| 'a' <= c <= 'z'
        ||| 'A' <= c <= 'Z'
        ||| '0' <= c <= '9'
        ||| c == '.'
        ||| c == ':'
        ||| c == '+'
        ||| c == '_'
        ||| c == '@'
        ||| c == '-'
    }) by {}
}

} // verus!
