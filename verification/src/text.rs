use vstd::prelude::*;

verus! {

/// Character-for-character equality of two string slices.
pub fn str_eq(a: &str, b: &str) -> (r: bool)
    ensures
        r == (a@ == b@),
{
    let n = a.unicode_len();
    let m = b.unicode_len();
    if n != m {
        return false;
    }
    let mut i: usize = 0;
    while i < n
        invariant
            n == a@.len(),
            n == b@.len(),
            0 <= i <= n,
            forall|j: int| 0 <= j < i ==> a@[j] == b@[j],
        decreases n - i,
    {
        if a.get_char(i) != b.get_char(i) {
            return false;
        }
        i = i + 1;
    }
    proof {
        assert(a@ =~= b@);
    }
    true
}

/// `s` with every leading occurrence of `c` removed.
pub open spec fn drop_leading(s: Seq<char>, c: char) -> Seq<char>
    decreases s.len(),
{
    if s.len() > 0 && s[0] == c {
        drop_leading(s.drop_first(), c)
    } else {
        s
    }
}

/// `s` with every trailing occurrence of `c` removed.
pub open spec fn drop_trailing(s: Seq<char>, c: char) -> Seq<char>
    decreases s.len(),
{
    if s.len() > 0 && s.last() == c {
        drop_trailing(s.drop_last(), c)
    } else {
        s
    }
}

fn trim_start_matching(s: &str, c: char) -> (r: &str)
    ensures
        r@ == drop_leading(s@, c),
    decreases s@.len(),
{
    let n = s.unicode_len();
    if n > 0 && s.get_char(0) == c {
        let rest = s.substring_char(1, n);
        proof {
            assert(rest@ =~= s@.drop_first());
        }
        trim_start_matching(rest, c)
    } else {
        s
    }
}

fn trim_end_matching(s: &str, c: char) -> (r: &str)
    ensures
        r@ == drop_trailing(s@, c),
    decreases s@.len(),
{
    let n = s.unicode_len();
    if n > 0 && s.get_char(n - 1) == c {
        let rest = s.substring_char(0, n - 1);
        proof {
            assert(rest@ =~= s@.drop_last());
        }
        trim_end_matching(rest, c)
    } else {
        s
    }
}

/// The textual path of an import with its enclosing markers removed: leading
/// `<` then leading `"` then trailing `>` then trailing `"`, each greedily.
pub open spec fn spec_strip_markers(s: Seq<char>) -> Seq<char> {
    drop_trailing(drop_trailing(drop_leading(drop_leading(s, '<'), '"'), '>'), '"')
}

/// Strips the delimiters of an import path literal.
pub fn strip_import_markers(s: &str) -> (r: String)
    ensures
        r@ == spec_strip_markers(s@),
{
    trim_end_matching(
        trim_end_matching(trim_start_matching(trim_start_matching(s, '<'), '"'), '>'),
        '"',
    ).to_owned()
}

/// A search directory joined with a relative import path: an absolute import
/// path stands alone, an empty directory adds nothing, and otherwise a `/`
/// separates the two unless the directory already ends in one.
pub open spec fn spec_join(dir: Seq<char>, rel: Seq<char>) -> Seq<char> {
    if rel.len() > 0 && rel[0] == '/' {
        rel
    } else if dir.len() == 0 {
        rel
    } else if dir.last() == '/' {
        dir + rel
    } else {
        dir + seq!['/'] + rel
    }
}

/// Joins a search directory and an import path.
pub fn join_path(dir: &str, rel: &str) -> (r: String)
    ensures
        r@ == spec_join(dir@, rel@),
{
    let rn = rel.unicode_len();
    if rn > 0 && rel.get_char(0) == '/' {
        return rel.to_owned();
    }
    let dn = dir.unicode_len();
    if dn == 0 {
        return rel.to_owned();
    }
    let mut out = dir.to_owned();
    if dir.get_char(dn - 1) != '/' {
        out.append("/");
        proof {
            reveal_strlit("/");
        }
    }
    out.append(rel);
    proof {
        assert(out@ =~= spec_join(dir@, rel@));
    }
    out
}

/// The position of the last `/` in `p`, if any.
pub open spec fn spec_last_slash(p: Seq<char>) -> Option<int>
    decreases p.len(),
{
    if p.len() == 0 {
        None
    } else if p.last() == '/' {
        Some(p.len() - 1)
    } else {
        spec_last_slash(p.drop_last())
    }
}

/// The directory part of a path: everything before the last `/`, a lone `/`
/// when that separator comes first, and empty for a bare file name.
pub open spec fn spec_parent_dir(p: Seq<char>) -> Seq<char> {
    match spec_last_slash(p) {
        Option::None => Seq::empty(),
        Option::Some(k) => if k == 0 {
            seq!['/']
        } else {
            p.subrange(0, k)
        },
    }
}

/// The directory part of a path.
pub fn parent_dir(path: &str) -> (r: String)
    ensures
        r@ == spec_parent_dir(path@),
{
    let n = path.unicode_len();
    let mut j: usize = n;
    proof {
        assert(path@.take(n as int) =~= path@);
    }
    while j > 0
        invariant
            n == path@.len(),
            0 <= j <= n,
            spec_last_slash(path@) == spec_last_slash(path@.take(j as int)),
        decreases j,
    {
        if path.get_char(j - 1) == '/' {
            proof {
                assert(path@.take(j as int).last() == path@[j - 1]);
            }
            if j - 1 == 0 {
                let root = "/";
                proof {
                    reveal_strlit("/");
                    assert(root@ =~= spec_parent_dir(path@));
                }
                return root.to_owned();
            }
            let r = path.substring_char(0, j - 1);
            proof {
                assert(r@ =~= spec_parent_dir(path@));
            }
            return r.to_owned();
        }
        proof {
            assert(path@.take(j as int).drop_last() =~= path@.take(j - 1));
            assert(path@.take(j as int).last() == path@[j - 1]);
        }
        j = j - 1;
    }
    proof {
        assert(path@.take(0) =~= Seq::<char>::empty());
    }
    String::new()
}

/// The character for one decimal digit.
pub open spec fn digit_char(d: nat) -> char {
    if d == 0 {
        '0'
    } else if d == 1 {
        '1'
    } else if d == 2 {
        '2'
    } else if d == 3 {
        '3'
    } else if d == 4 {
        '4'
    } else if d == 5 {
        '5'
    } else if d == 6 {
        '6'
    } else if d == 7 {
        '7'
    } else if d == 8 {
        '8'
    } else {
        '9'
    }
}

/// The usual decimal rendering of a number, most significant digit first.
pub open spec fn spec_decimal(n: nat) -> Seq<char>
    decreases n,
{
    if n < 10 {
        seq![digit_char(n)]
    } else {
        spec_decimal(n / 10) + seq![digit_char(n % 10)]
    }
}

fn digit_str(d: usize) -> (r: &'static str)
    requires
        d < 10,
    ensures
        r@ == seq![digit_char(d as nat)],
{
    let r: &'static str = if d == 0 {
        "0"
    } else if d == 1 {
        "1"
    } else if d == 2 {
        "2"
    } else if d == 3 {
        "3"
    } else if d == 4 {
        "4"
    } else if d == 5 {
        "5"
    } else if d == 6 {
        "6"
    } else if d == 7 {
        "7"
    } else if d == 8 {
        "8"
    } else {
        "9"
    };
    proof {
        reveal_strlit("0");
        reveal_strlit("1");
        reveal_strlit("2");
        reveal_strlit("3");
        reveal_strlit("4");
        reveal_strlit("5");
        reveal_strlit("6");
        reveal_strlit("7");
        reveal_strlit("8");
        reveal_strlit("9");
        assert(r@ =~= seq![digit_char(d as nat)]);
    }
    r
}

/// Renders a count in decimal.
pub fn decimal_string(n: usize) -> (r: String)
    ensures
        r@ == spec_decimal(n as nat),
    decreases n,
{
    if n < 10 {
        digit_str(n).to_owned()
    } else {
        let mut s = decimal_string(n / 10);
        s.append(digit_str(n % 10));
        proof {
            assert(s@ =~= spec_decimal(n as nat));
        }
        s
    }
}

} // verus!
