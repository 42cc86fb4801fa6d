//! Where sockets and configuration files stand.
use vstd::prelude::*;

use crate::text::{
    chars_of, decimal, decimal_text, is_alphanumeric, join2, join3, lower_char, lower_char_exec,
    string_of,
};

verus! {

/// A relative name below a directory.
pub open spec fn joined(dir: Seq<char>, name: Seq<char>) -> Seq<char> {
    if dir.len() == 0 || dir.last() == '/' {
        dir + name
    } else {
        dir + "/"@ + name
    }
}

pub fn join_path(dir: &str, name: &str) -> (r: String)
    ensures
        r@ == joined(dir@, name@),
{
    let n: usize = dir.unicode_len();
    if n == 0 || dir.get_char(n - 1) == '/' {
        join2(dir, name)
    } else {
        join3(dir, "/", name)
    }
}

/// The directory of the session's sockets: `sde` below the user's runtime
/// directory, or a directory of the user's own under `/tmp`.
pub open spec fn runtime_dir_of(xdg_runtime_dir: Option<Seq<char>>, uid: nat) -> Seq<char> {
    match xdg_runtime_dir {
        Some(dir) if dir.len() > 0 => joined(dir, "sde"@),
        _ => "/tmp/sde-"@ + decimal(uid),
    }
}

pub open spec fn text_view(s: Option<&str>) -> Option<Seq<char>> {
    match s {
        Some(t) => Some(t@),
        None => None,
    }
}

pub fn runtime_dir(xdg_runtime_dir: Option<&str>, uid: u32) -> (r: String)
    ensures
        r@ == runtime_dir_of(text_view(xdg_runtime_dir), uid as nat),
{
    if let Some(dir) = xdg_runtime_dir {
        if dir.unicode_len() > 0 {
            return join_path(dir, "sde");
        }
    }
    join2("/tmp/sde-", decimal_text(uid as u128).as_str())
}

/// The part of a name that may stand in a file name: ASCII letters in lower
/// case, digits and hyphens.
pub open spec fn slug(s: Seq<char>) -> Seq<char>
    decreases s.len(),
{
    if s.len() == 0 {
        Seq::empty()
    } else {
        let before = slug(s.drop_last());
        if is_alphanumeric(s.last()) || s.last() == '-' {
            before.push(lower_char(s.last()))
        } else {
            before
        }
    }
}

pub fn slug_of(name: &str) -> (r: String)
    ensures
        r@ == slug(name@),
{
    let v = chars_of(name);
    let mut out: Vec<char> = Vec::new();
    let mut i: usize = 0;
    assert(v@.take(0) =~= Seq::empty());
    while i < v.len()
        invariant
            i <= v.len(),
            out@ == slug(v@.take(i as int)),
        decreases v.len() - i,
    {
        let c: char = v[i];
        let n: u32 = c as u32;
        assert(v@.take(i as int + 1).drop_last() =~= v@.take(i as int));
        if (48 <= n && n <= 57) || (65 <= n && n <= 90) || (97 <= n && n <= 122) || c == '-' {
            out.push(lower_char_exec(c));
        }
        i = i + 1;
    }
    assert(v@.take(v.len() as int) =~= v@);
    string_of(&out)
}

proof fn lemma_slug_chars(s: Seq<char>)
    ensures
        forall|i: int|
            0 <= i < slug(s).len() ==> {
                let c = #[trigger] slug(s)[i];
                (is_alphanumeric(c) || c == '-') && lower_char(c) == c
            },
    decreases s.len(),
{
    if s.len() > 0 {
        let before = slug(s.drop_last());
        lemma_slug_chars(s.drop_last());
        assert forall|i: int| 0 <= i < slug(s).len() implies {
            let c = #[trigger] slug(s)[i];
            (is_alphanumeric(c) || c == '-') && lower_char(c) == c
        } by {
            if i < before.len() {
                assert(slug(s)[i] == before[i]);
            } else {
                assert(slug(s)[i] == lower_char(s.last()));
            }
        }
    }
}

proof fn lemma_slug_of_clean(s: Seq<char>)
    requires
        forall|i: int|
            0 <= i < s.len() ==> {
                let c = #[trigger] s[i];
                (is_alphanumeric(c) || c == '-') && lower_char(c) == c
            },
    ensures
        slug(s) == s,
    decreases s.len(),
{
    if s.len() > 0 {
        lemma_slug_of_clean(s.drop_last());
        assert(slug(s) =~= s);
    } else {
        assert(slug(s) =~= s);
    }
}

/// A name holds only letters, digits and hyphens once it was normalised, and
/// normalising it again changes nothing.
pub proof fn law_slug_is_normal(s: Seq<char>)
    ensures
        slug(slug(s)) == slug(s),
        forall|i: int|
            0 <= i < slug(s).len() ==> is_alphanumeric(#[trigger] slug(s)[i]) || slug(s)[i] == '-',
{
    lemma_slug_chars(s);
    lemma_slug_of_clean(slug(s));
}

proof fn lemma_slug_append(a: Seq<char>, b: Seq<char>)
    ensures
        slug(a + b) == slug(a) + slug(b),
    decreases b.len(),
{
    if b.len() == 0 {
        assert(a + b =~= a);
        assert(slug(a) + slug(b) =~= slug(a));
    } else {
        lemma_slug_append(a, b.drop_last());
        assert((a + b).drop_last() =~= a + b.drop_last());
        assert((a + b).last() == b.last());
        assert(slug(a + b) =~= slug(a) + slug(b));
    }
}

/// Characters that may not stand in a file name are as if they were not there:
/// no path can be named through them.
pub proof fn law_slug_ignores_other_characters(a: Seq<char>, c: char, b: Seq<char>)
    requires
        !is_alphanumeric(c),
        c != '-',
    ensures
        slug(a + seq![c] + b) == slug(a + b),
{
    lemma_slug_append(a + seq![c], b);
    lemma_slug_append(a, seq![c]);
    lemma_slug_append(a, b);
    let one = seq![c];
    assert(one.last() == c);
    assert(one.drop_last() =~= Seq::empty());
    assert(slug(Seq::<char>::empty()) =~= Seq::empty());
    assert(slug(one) =~= Seq::empty());
    assert(slug(a) + slug(seq![c]) =~= slug(a));
}

/// Case does not matter in a name.
pub proof fn law_slug_ignores_case(s: Seq<char>)
    ensures
        slug(crate::text::lower(s)) == slug(s),
    decreases s.len(),
{
    if s.len() > 0 {
        law_slug_ignores_case(s.drop_last());
        assert(crate::text::lower(s).drop_last() =~= crate::text::lower(s.drop_last()));
    } else {
        assert(crate::text::lower(s) =~= s);
    }
}

/// The socket of a named session below the runtime directory.
pub open spec fn socket_path_of(dir: Seq<char>, prefix: Seq<char>, name: Seq<char>) -> Seq<char> {
    joined(dir, prefix + name + ".sock"@)
}

/// Sockets of different names in one directory are different.
pub proof fn law_socket_paths_are_distinct(
    dir: Seq<char>,
    prefix: Seq<char>,
    a: Seq<char>,
    b: Seq<char>,
)
    requires
        socket_path_of(dir, prefix, a) == socket_path_of(dir, prefix, b),
    ensures
        a == b,
{
    let head = if dir.len() == 0 || dir.last() == '/' {
        dir
    } else {
        dir + "/"@
    };
    let x = socket_path_of(dir, prefix, a);
    let y = socket_path_of(dir, prefix, b);
    let n = head.len() + prefix.len();
    assert(x =~= head + (prefix + a + ".sock"@));
    assert(y =~= head + (prefix + b + ".sock"@));
    assert(a =~= x.subrange(n as int, n as int + a.len()));
    assert(b =~= y.subrange(n as int, n as int + b.len()));
}

} // verus!
