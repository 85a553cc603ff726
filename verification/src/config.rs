//! File names of algorithm configs.
//!
//! Configs are TOML documents; a config file's name must end in `.toml`.
//! Reading and writing the files is left to the caller.
use vstd::prelude::*;

use crate::text::chars_of;

verus! {

/// Whether the name ends in `.toml`.
pub open spec fn has_toml_suffix(name: Seq<char>) -> bool {
    name.len() >= 5 && name.subrange(name.len() - 5, name.len() as int) == ".toml"@
}

/// Whether `name` ends in `.toml`.
pub fn ends_with_toml(name: &str) -> (r: bool)
    ensures r == has_toml_suffix(name@),
{
    let cs = chars_of(name);
    let n = cs.len();
    if n < 5 {
        return false;
    }
    let tail = ['.', 't', 'o', 'm', 'l'];
    let mut k: usize = 0;
    while k < 5
        invariant
            k <= 5,
            n == cs.len(),
            n >= 5,
            cs@ == name@,
            tail@ == seq!['.', 't', 'o', 'm', 'l'],
            forall|q: int| 0 <= q < k ==> cs@[n - 5 + q] == tail@[q],
        decreases 5 - k,
    {
        if cs[n - 5 + k] != tail[k] {
            proof {
                reveal_strlit(".toml");
                assert(name@.subrange(n - 5, n as int)[k as int] != ".toml"@[k as int]);
            }
            return false;
        }
        k += 1;
    }
    proof {
        reveal_strlit(".toml");
        assert(name@.subrange(n - 5, n as int) =~= ".toml"@);
    }
    true
}

/// The message of a refused config file name.
pub open spec fn not_toml_message() -> Seq<char> {
    "file must be a .toml"@
}

/// The name under which a config is read (`append_extension` false) or
/// written: the name itself when it ends in `.toml`; with
/// `append_extension`, the name with `.toml` appended; otherwise refused.
pub fn toml_file_name(file_name: &str, append_extension: bool) -> (r: Result<String, String>)
    ensures
        has_toml_suffix(file_name@) ==> (r matches Ok(n) && n@ == file_name@),
        !has_toml_suffix(file_name@) && append_extension ==> (r matches Ok(n) && n@ == file_name@ + ".toml"@),
        !has_toml_suffix(file_name@) && !append_extension ==> (r matches Err(m) && m@ == not_toml_message()),
{
    if ends_with_toml(file_name) {
        Ok(file_name.to_owned())
    } else if append_extension {
        let mut n = file_name.to_owned();
        n.append(".toml");
        Ok(n)
    } else {
        Err("file must be a .toml".to_owned())
    }
}

} // verus!
