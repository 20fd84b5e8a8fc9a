//! File paths as the bytes of an `OsString`: joining components the way
//! `PathBuf::push` does, and the user's directories as the `dirs` crate
//! finds them.

use vstd::prelude::*;
use vstd::string::*;

verus! {

/// `PathBuf::push` with a relative component: a `'/'` is put between the two
/// parts unless `base` is empty or already ends with one.
pub open spec fn join_path(base: Seq<u8>, comp: Seq<u8>) -> Seq<u8> {
    if base.len() == 0 || base.last() == 47u8 {
        base + comp
    } else {
        base.push(47u8) + comp
    }
}

/// Appends the bytes of `src` to `dst`.
pub fn push_bytes(dst: &mut Vec<u8>, src: &[u8])
    ensures
        final(dst)@ == old(dst)@ + src@,
{
    let mut i: usize = 0;
    while i < src.len()
        invariant
            i <= src@.len(),
            dst@ == old(dst)@ + src@.take(i as int),
        decreases src@.len() - i,
    {
        assert(src@.take(i + 1) =~= src@.take(i as int).push(src@[i as int]));
        dst.push(src[i]);
        i = i + 1;
    }
    assert(src@.take(src@.len() as int) =~= src@);
}

/// The UTF-8 bytes of `s`.
pub fn str_bytes(s: &str) -> (r: Vec<u8>)
    ensures
        r@ == s.spec_bytes(),
{
    s.as_bytes_vec()
}

/// Appends the relative component `comp` to the path `base`.
pub fn push_path(base: &mut Vec<u8>, comp: &str)
    ensures
        final(base)@ == join_path(old(base)@, comp.spec_bytes()),
{
    if base.len() > 0 && base[base.len() - 1] != 47u8 {
        base.push(47u8);
    }
    push_bytes(base, comp.as_bytes());
}

/// `join_path` on the displayed (text) form of a path.
pub open spec fn join_path_text(base: Seq<char>, comp: Seq<char>) -> Seq<char> {
    if base.len() == 0 || base.last() == '/' {
        base + comp
    } else {
        base.push('/') + comp
    }
}

/// Appends the relative component `comp` to the displayed path `base`.
pub fn push_path_text(base: &mut String, comp: &str)
    ensures
        final(base)@ == join_path_text(old(base)@, comp@),
{
    let v = crate::text::to_chars(base.as_str());
    if v.len() > 0 && v[v.len() - 1] != '/' {
        crate::text::push_char(base, '/');
    }
    base.append(comp);
}

/// `dirs::config_dir`: the user's configuration directory, as the `dirs`
/// crate finds it from the environment (`$XDG_CONFIG_HOME`, else
/// `$HOME/.config`), given as the bytes of the path. It depends on the
/// environment, so nothing is promised of it.
#[verifier::external_body]
pub(crate) fn user_config_dir() -> (r: Option<Vec<u8>>) {
    dirs::config_dir().map(|p| p.into_os_string().into_encoded_bytes())
}

/// `dirs::home_dir`: the user's home directory, as the `dirs` crate finds it
/// (`$HOME`, else the password database), given as the bytes of the path. It
/// depends on the environment, so nothing is promised of it.
#[verifier::external_body]
pub(crate) fn user_home_dir() -> (r: Option<Vec<u8>>) {
    dirs::home_dir().map(|p| p.into_os_string().into_encoded_bytes())
}

} // verus!
