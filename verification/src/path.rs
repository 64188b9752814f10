//! Paths as sequences of characters: a directory and a file name joined by `/`,
//! the stem of a file name, and the numbered variants of a path by which a file
//! keeps clear of those that exist.
use vstd::prelude::*;
use vstd::set_lib::*;
use crate::text::{
    decimal, find_last_char, from_chars, last_position, lemma_decimal_digits,
    lemma_decimal_injective, lemma_decimal_value, lemma_last_position, push_decimal, push_range,
    push_str_chars, slice_chars, to_chars,
};

verus! {

/// The path of the file `name` in the directory `dir`: the two with a `/` between
/// them, unless `dir` is empty or ends in one.
pub open spec fn joined(dir: Seq<char>, name: Seq<char>) -> Seq<char> {
    if dir.len() == 0 || dir.last() == '/' {
        dir + name
    } else {
        dir.push('/') + name
    }
}

/// The part of a path up to its last `/`, that `/` included; empty where it has none.
pub open spec fn dir_part(path: Seq<char>) -> Seq<char> {
    path.take(last_position(path, '/') + 1)
}

/// The part of a path after its last `/`; all of it where it has none.
pub open spec fn name_part(path: Seq<char>) -> Seq<char> {
    path.skip(last_position(path, '/') + 1)
}

/// A file name without its extension: what stands before its last dot, unless that
/// dot is its first character or it has none.
pub open spec fn stem(name: Seq<char>) -> Seq<char> {
    if last_position(name, '.') > 0 {
        name.take(last_position(name, '.'))
    } else {
        name
    }
}

/// A file name with its extension, if it has one, replaced by `.md`.
pub open spec fn with_md(name: Seq<char>) -> Seq<char> {
    stem(name) + ".md"@
}

/// The `n`-th variant of a path: the path itself for 0, and for a larger `n` the
/// path whose file name is the stem of the first, a space, `n` in parentheses, and
/// `.md`.
pub open spec fn numbered(path: Seq<char>, n: nat) -> Seq<char> {
    if n == 0 {
        path
    } else {
        dir_part(path) + stem(name_part(path)) + " ("@ + decimal(n) + ").md"@
    }
}

/// Whether the `n`-th variant of `path` is the first that `taken` does not hold.
pub open spec fn is_first_free(path: Seq<char>, taken: Seq<Seq<char>>, n: nat) -> bool {
    &&& !taken.contains(numbered(path, n))
    &&& forall|j: nat| j < n ==> taken.contains(#[trigger] numbered(path, j))
}

/// The number of the first variant of `path` that `taken` does not hold.
pub open spec fn free_index(path: Seq<char>, taken: Seq<Seq<char>>) -> nat {
    choose|n: nat| is_first_free(path, taken, n)
}

/// The first variant of `path` that `taken` does not hold.
pub open spec fn free_path(path: Seq<char>, taken: Seq<Seq<char>>) -> Seq<char> {
    numbered(path, free_index(path, taken))
}

/// A path is its directory part followed by its name part, and the name part holds
/// no `/`.
pub proof fn lemma_path_parts(path: Seq<char>)
    ensures
        -1 <= last_position(path, '/') < path.len(),
        dir_part(path) + name_part(path) == path,
        forall|i: int| 0 <= i < name_part(path).len() ==> #[trigger] name_part(path)[i] != '/',
    decreases path.len(),
{
    if path.len() > 0 && path.last() != '/' {
        let t = path.drop_last();
        lemma_path_parts(t);
        let k = last_position(path, '/');
        assert(k == last_position(t, '/'));
        assert forall|i: int| 0 <= i < name_part(path).len() implies #[trigger] name_part(
            path,
        )[i] != '/' by {
            if k + 1 + i < t.len() {
                assert(name_part(path)[i] == name_part(t)[i]);
            }
        }
    }
    assert(dir_part(path) + name_part(path) =~= path);
}

/// The stem of a name is a prefix of it, and what follows the stem is empty or
/// starts with a dot.
pub proof fn lemma_stem(name: Seq<char>)
    ensures
        stem(name).len() <= name.len(),
        stem(name) == name.take(stem(name).len() as int),
        stem(name).len() < name.len() ==> name[stem(name).len() as int] == '.',
        name.len() > 0 ==> stem(name).len() > 0,
{
    lemma_last_position_bounds(name, '.');
}

/// What `last_position` finds: -1 or an index at which the character stands.
pub proof fn lemma_last_position_bounds(s: Seq<char>, c: char)
    ensures
        -1 <= last_position(s, c) < s.len(),
        last_position(s, c) >= 0 ==> s[last_position(s, c)] == c,
        forall|i: int| last_position(s, c) < i < s.len() ==> #[trigger] s[i] != c,
    decreases s.len(),
{
    if s.len() > 0 && s.last() != c {
        let t = s.drop_last();
        lemma_last_position_bounds(t, c);
        assert forall|i: int| last_position(s, c) < i < s.len() implies #[trigger] s[i] != c by {
            if i < t.len() {
                assert(s[i] == t[i]);
            }
        }
        if last_position(s, c) >= 0 {
            assert(s[last_position(s, c)] == t[last_position(t, c)]);
        }
    }
}

/// A directory part followed by a name without `/` is a path with these two parts.
pub proof fn lemma_parts_of_joined(dir: Seq<char>, name: Seq<char>)
    requires
        dir.len() == 0 || dir.last() == '/',
        forall|i: int| 0 <= i < name.len() ==> #[trigger] name[i] != '/',
    ensures
        dir_part(dir + name) == dir,
        name_part(dir + name) == name,
{
    let path = dir + name;
    assert forall|i: int| dir.len() - 1 < i < path.len() implies #[trigger] path[i] != '/' by {
        assert(path[i] == name[i - dir.len()]);
    }
    if dir.len() > 0 {
        assert(path[dir.len() - 1] == dir.last());
    }
    lemma_last_position(path, '/', dir.len() - 1);
    assert(dir_part(path) =~= dir);
    assert(name_part(path) =~= name);
}

/// The file that a path names in a directory lies in that directory: where `name`
/// holds no `/`, the name part of the joined path is `name`, and its directory
/// part is `dir`, with a `/` behind it where `dir` is not empty and does not end in
/// one.
pub proof fn lemma_joined_parts(dir: Seq<char>, name: Seq<char>)
    requires
        forall|i: int| 0 <= i < name.len() ==> #[trigger] name[i] != '/',
    ensures
        name_part(joined(dir, name)) == name,
        dir_part(joined(dir, name)) == if dir.len() == 0 || dir.last() == '/' {
            dir
        } else {
            dir.push('/')
        },
{
    if dir.len() == 0 || dir.last() == '/' {
        lemma_parts_of_joined(dir, name);
    } else {
        lemma_parts_of_joined(dir.push('/'), name);
    }
}

/// Every variant of a path lies in the directory of the path, and the name of a
/// variant with a number above 0 is the stem of the first name, a space, the number
/// in parentheses, and `.md`.
pub proof fn lemma_numbered_parts(path: Seq<char>, n: nat)
    ensures
        dir_part(numbered(path, n)) == dir_part(path),
        n > 0 ==> name_part(numbered(path, n)) == stem(name_part(path)) + " ("@ + decimal(n)
            + ").md"@,
{
    if n > 0 {
        reveal_strlit(" (");
        reveal_strlit(").md");
        lemma_path_parts(path);
        lemma_stem(name_part(path));
        lemma_last_position_bounds(path, '/');
        lemma_decimal_digits(n);
        let name = stem(name_part(path)) + " ("@ + decimal(n) + ").md"@;
        let head = stem(name_part(path)).len() as int;
        let digits = decimal(n).len() as int;
        assert forall|i: int| 0 <= i < name.len() implies #[trigger] name[i] != '/' by {
            if i < head {
                assert(name[i] == name_part(path)[i]);
            } else if i < head + 2 {
                assert(name[i] == " ("@[i - head]);
            } else if i < head + 2 + digits {
                assert(name[i] == decimal(n)[i - head - 2]);
            } else {
                assert(name[i] == ").md"@[i - head - 2 - digits]);
            }
        }
        assert(numbered(path, n) =~= dir_part(path) + name);
        lemma_parts_of_joined(dir_part(path), name);
    }
}

/// Two variants of one path with different numbers are different paths.
pub proof fn lemma_numbered_injective(path: Seq<char>, a: nat, b: nat)
    requires
        a != b,
    ensures
        numbered(path, a) != numbered(path, b),
{
    reveal_strlit(" (");
    reveal_strlit(").md");
    lemma_path_parts(path);
    let name = name_part(path);
    lemma_stem(name);
    let head = dir_part(path) + stem(name);
    if a != 0 && b != 0 {
        lemma_decimal_value(a);
        lemma_decimal_value(b);
        let x = numbered(path, a);
        let y = numbered(path, b);
        if x == y {
            assert(x.len() == head.len() + 2 + decimal(a).len() + 4);
            assert(y.len() == head.len() + 2 + decimal(b).len() + 4);
            let from: int = head.len() as int + 2;
            assert(decimal(a) =~= x.subrange(from, from + decimal(a).len()));
            assert(decimal(b) =~= y.subrange(from, from + decimal(b).len()));
            lemma_decimal_injective(a, b);
        }
    } else {
        let n = if a == 0 { b } else { a };
        let y = numbered(path, n);
        assert(path == dir_part(path) + name);
        assert(y[head.len() as int] == ' ');
        assert(y.len() > head.len());
        if path.len() > head.len() {
            assert(path[head.len() as int] == name[stem(name).len() as int]);
        }
    }
}

/// Where the variants 0 to `n` of a path are all taken, more than `n` paths are
/// taken.
pub proof fn lemma_taken_variants(path: Seq<char>, taken: Seq<Seq<char>>, n: nat)
    requires
        forall|j: nat| j <= n ==> taken.contains(#[trigger] numbered(path, j)),
    ensures
        n < taken.len(),
{
    let numbers = Set::new(|j: nat| j <= n);
    let f = |j: nat| numbered(path, j);
    let variants = numbers.map(f);
    lemma_numbers_upto(n);
    assert forall|x: nat, y: nat|
        numbers.contains(x) && numbers.contains(y) && #[trigger] f(x) == #[trigger] f(y) implies x
        == y by {
        if x != y {
            lemma_numbered_injective(path, x, y);
        }
    }
    lemma_map_size(numbers, variants, f);
    assert forall|p: Seq<char>| variants.contains(p) implies taken.to_set().contains(p) by {
        let j = choose|j: nat| numbers.contains(j) && p == f(j);
        assert(taken.contains(numbered(path, j)));
    }
    taken.lemma_cardinality_of_set();
    lemma_len_subset(variants, taken.to_set());
}

/// The numbers up to `n` are `n + 1` in number.
pub proof fn lemma_numbers_upto(n: nat)
    ensures
        Set::new(|j: nat| j <= n).finite(),
        Set::new(|j: nat| j <= n).len() == n + 1,
    decreases n,
{
    let s = Set::new(|j: nat| j <= n);
    if n == 0 {
        assert(s =~= Set::empty().insert(0nat));
    } else {
        let t = Set::new(|j: nat| j <= (n - 1) as nat);
        lemma_numbers_upto((n - 1) as nat);
        assert(s =~= t.insert(n));
    }
}

/// Some variant of every path is free, and its number is no more than the number
/// of paths that are taken.
pub proof fn lemma_free_exists(path: Seq<char>, taken: Seq<Seq<char>>)
    ensures
        is_first_free(path, taken, free_index(path, taken)),
        free_index(path, taken) <= taken.len(),
        !taken.contains(free_path(path, taken)),
{
    let n = lemma_first_free_from(path, taken, 0);
    lemma_first_free_unique(path, taken, n, free_index(path, taken));
}

/// The number of the first free variant, found by counting up from `from`, before
/// which all variants are taken.
proof fn lemma_first_free_from(path: Seq<char>, taken: Seq<Seq<char>>, from: nat) -> (n: nat)
    requires
        forall|j: nat| j < from ==> taken.contains(#[trigger] numbered(path, j)),
        from <= taken.len(),
    ensures
        is_first_free(path, taken, n),
        n <= taken.len(),
    decreases taken.len() - from,
{
    if taken.contains(numbered(path, from)) {
        lemma_taken_variants(path, taken, from);
        lemma_first_free_from(path, taken, from + 1)
    } else {
        from
    }
}

/// No path has two first free variants.
pub proof fn lemma_first_free_unique(path: Seq<char>, taken: Seq<Seq<char>>, a: nat, b: nat)
    requires
        is_first_free(path, taken, a),
    ensures
        is_first_free(path, taken, b) ==> a == b,
        free_index(path, taken) == a,
{
    if is_first_free(path, taken, b) && a != b {
        if a < b {
            assert(taken.contains(numbered(path, a)));
        } else {
            assert(taken.contains(numbered(path, b)));
        }
    }
    let c = free_index(path, taken);
    if a != c {
        if a < c {
            assert(taken.contains(numbered(path, a)));
        } else {
            assert(taken.contains(numbered(path, c)));
        }
    }
}

/// A file that is placed twice gets two paths: the second placement, made when the
/// first path is taken, never yields the first path again. Where neither the path
/// nor its first variant was taken before, the first placement yields the path
/// itself and the second yields the variant that ends in ` (1).md`.
pub proof fn lemma_placed_twice(path: Seq<char>, taken: Seq<Seq<char>>)
    ensures
        free_path(path, taken.push(free_path(path, taken))) != free_path(path, taken),
        !taken.contains(path) ==> free_path(path, taken) == path,
        !taken.contains(path) && !taken.contains(numbered(path, 1)) ==> free_path(
            path,
            taken.push(free_path(path, taken)),
        ) == dir_part(path) + stem(name_part(path)) + " (1).md"@,
{
    let first = free_path(path, taken);
    let after = taken.push(first);
    lemma_free_exists(path, taken);
    lemma_free_exists(path, after);
    assert(after.last() == first);
    assert(after.contains(first));
    if !taken.contains(path) {
        lemma_first_free_unique(path, taken, 0, 0);
        if !taken.contains(numbered(path, 1)) {
            lemma_numbered_injective(path, 0, 1);
            assert(!after.contains(numbered(path, 1))) by {
                if after.contains(numbered(path, 1)) {
                    let i = choose|i: int| 0 <= i < after.len() && after[i] == numbered(path, 1);
                    if i < taken.len() {
                        assert(taken[i] == after[i]);
                    }
                }
            }
            assert(numbered(path, 0) == path);
            assert forall|j: nat| j < 1 implies after.contains(#[trigger] numbered(path, j)) by {
                assert(j == 0);
            }
            lemma_first_free_unique(path, after, 1, 1);
            reveal_strlit(" (");
            reveal_strlit(").md");
            reveal_strlit(" (1).md");
            assert(decimal(1) =~= seq!['1']);
            assert(numbered(path, 1) =~= dir_part(path) + stem(name_part(path)) + " (1).md"@);
        }
    }
}

/// The path of the file `name` in the directory `dir`.
pub fn join_path(dir: &str, name: &str) -> (r: String)
    ensures
        r@ == joined(dir@, name@),
{
    from_chars(&join_chars(&to_chars(dir), &to_chars(name)))
}

/// The path of the file `name` in the directory `dir`, both as characters.
pub fn join_chars(dir: &Vec<char>, name: &Vec<char>) -> (r: Vec<char>)
    ensures
        r@ == joined(dir@, name@),
{
    let mut out: Vec<char> = Vec::new();
    push_range(&mut out, dir, 0, dir.len());
    if dir.len() > 0 && dir[dir.len() - 1] != '/' {
        out.push('/');
    }
    push_range(&mut out, name, 0, name.len());
    assert(dir@.subrange(0, dir@.len() as int) == dir@);
    assert(name@.subrange(0, name@.len() as int) == name@);
    out
}

/// The length of the stem of `name`.
pub fn stem_len(name: &Vec<char>) -> (r: usize)
    ensures
        r <= name.len(),
        stem(name@) == name@.take(r as int),
{
    match find_last_char(name, '.') {
        Some(dot) => {
            if dot > 0 {
                dot
            } else {
                name.len()
            }
        },
        None => name.len(),
    }
}

/// The index at which the name part of `path` starts.
pub fn name_start(path: &Vec<char>) -> (r: usize)
    ensures
        r <= path.len(),
        r == last_position(path@, '/') + 1,
{
    match find_last_char(path, '/') {
        Some(slash) => slash + 1,
        None => 0,
    }
}

/// The `n`-th variant of `path`.
pub fn numbered_path(path: &Vec<char>, n: usize) -> (r: Vec<char>)
    ensures
        r@ == numbered(path@, n as nat),
{
    if n == 0 {
        let whole = slice_chars(path, 0, path.len());
        assert(path@.subrange(0, path@.len() as int) == path@);
        whole
    } else {
        let start = name_start(path);
        let name = slice_chars(path, start, path.len());
        let keep = stem_len(&name);
        let mut out = slice_chars(path, 0, start);
        push_range(&mut out, &name, 0, keep);
        push_str_chars(&mut out, " (");
        push_decimal(&mut out, n);
        push_str_chars(&mut out, ").md");
        assert(name@ == name_part(path@));
        assert(name@.subrange(0, keep as int) == stem(name@));
        out
    }
}

} // verus!
