use vstd::prelude::*;
use vstd::hash_map::StringHashMap;

use crate::text::{chars_eq, chars_of, string_of};

verus! {

broadcast use vstd::string::group_string_axioms;

// ---------------------------------------------------------------------------
// The text model: white space, trimming, lines, joining.
// ---------------------------------------------------------------------------

/// Whether `c` has the Unicode `White_Space` property, the characters that
/// `char::is_whitespace` and `str::trim` treat as white space: the controls
/// U+0009 to U+000D, the space, U+0085, the no-break space, the Ogham space
/// mark, the spaces U+2000 to U+200A, the line and paragraph separators, the
/// narrow no-break space, the medium mathematical space and the ideographic
/// space.
pub open spec fn has_white_space_property(c: char) -> bool {
    let u = c as u32;
    (0x09 <= u && u <= 0x0D) || u == 0x20 || u == 0x85 || u == 0xA0 || u == 0x1680
        || (0x2000 <= u && u <= 0x200A) || u == 0x2028 || u == 0x2029 || u == 0x202F
        || u == 0x205F || u == 0x3000
}

/// Whether `c` is white space in the sense of `has_white_space_property`.
pub fn is_white_space(c: char) -> (b: bool)
    ensures
        b == has_white_space_property(c),
{
    let u: u32 = c as u32;
    (0x09 <= u && u <= 0x0D) || u == 0x20 || u == 0x85 || u == 0xA0 || u == 0x1680
        || (0x2000 <= u && u <= 0x200A) || u == 0x2028 || u == 0x2029 || u == 0x202F
        || u == 0x205F || u == 0x3000
}

/// The directive that marks a line as an include: `//#include`.
pub open spec fn include_directive() -> Seq<char> {
    seq!['/', '/', '#', 'i', 'n', 'c', 'l', 'u', 'd', 'e']
}

/// For each character of `s`, whether it is white space.
pub open spec fn white_space_flags(s: Seq<char>) -> Seq<bool> {
    s.map_values(|c: char| has_white_space_property(c))
}

/// The number of leading `true` flags.
pub open spec fn leading_true(flags: Seq<bool>) -> nat
    decreases flags.len(),
{
    if flags.len() > 0 && flags[0] {
        1 + leading_true(flags.drop_first())
    } else {
        0
    }
}

/// The number of trailing `true` flags.
pub open spec fn trailing_true(flags: Seq<bool>) -> nat
    decreases flags.len(),
{
    if flags.len() > 0 && flags.last() {
        1 + trailing_true(flags.drop_last())
    } else {
        0
    }
}

/// The bounds of what is left of a text with the given white-space flags
/// once white space is removed at both ends.
pub open spec fn trim_range(flags: Seq<bool>) -> (int, int) {
    let start = leading_true(flags) as int;
    (start, flags.len() - trailing_true(flags.skip(start)))
}

/// `s` with white space removed at both ends, as `str::trim` does.
pub open spec fn trim(s: Seq<char>) -> Seq<char> {
    let r = trim_range(white_space_flags(s));
    s.subrange(r.0, r.1)
}

/// Whether `s` begins with `prefix`.
pub open spec fn starts_with(s: Seq<char>, prefix: Seq<char>) -> bool {
    prefix.len() <= s.len() && s.take(prefix.len() as int) == prefix
}

/// A line with one trailing carriage return removed, if it has one.
pub open spec fn strip_cr(line: Seq<char>) -> Seq<char> {
    if line.len() > 0 && line.last() == '\r' {
        line.drop_last()
    } else {
        line
    }
}

/// The lines of `rest`, where `cur` is the part of the current line read so
/// far. A line ends at `\n`; a `\r` right before that `\n` is dropped; the
/// last line needs no `\n`, and an empty last line is no line (as `str::lines`).
pub open spec fn lines_from(rest: Seq<char>, cur: Seq<char>) -> Seq<Seq<char>>
    decreases rest.len(),
{
    if rest.len() == 0 {
        if cur.len() == 0 {
            seq![]
        } else {
            seq![cur]
        }
    } else if rest[0] == '\n' {
        seq![strip_cr(cur)] + lines_from(rest.drop_first(), seq![])
    } else {
        lines_from(rest.drop_first(), cur.push(rest[0]))
    }
}

/// The lines of a text, as `str::lines` yields them.
pub open spec fn lines(s: Seq<char>) -> Seq<Seq<char>> {
    lines_from(s, seq![])
}

/// The lines joined with `\n` between each two of them.
pub open spec fn join_lines(ls: Seq<Seq<char>>) -> Seq<char>
    decreases ls.len(),
{
    if ls.len() == 0 {
        seq![]
    } else if ls.len() == 1 {
        ls[0]
    } else {
        join_lines(ls.drop_last()) + seq!['\n'] + ls.last()
    }
}

/// The number of bytes that UTF-8 uses for a character.
pub open spec fn utf8_width(c: char) -> int {
    if (c as u32) < 0x80 {
        1
    } else if (c as u32) < 0x800 {
        2
    } else if (c as u32) < 0x10000 {
        3
    } else {
        4
    }
}

/// What is left of `s` after its first `n` bytes (in UTF-8), or `None` where
/// byte `n` does not start a character or lies past the end: the cases in
/// which slicing a `str` at byte `n` panics.
pub open spec fn skip_bytes(s: Seq<char>, n: int) -> Option<Seq<char>>
    decreases s.len(),
{
    if n == 0 {
        Some(s)
    } else if n < 0 || s.len() == 0 {
        None
    } else {
        skip_bytes(s.drop_first(), n - utf8_width(s[0]))
    }
}

/// Whether a line is an include line: trimmed, it begins with `//#include`.
pub open spec fn is_include_line(line: Seq<char>) -> bool {
    starts_with(trim(line), include_directive())
}

/// The file that an include line names: the line after its first ten
/// bytes, trimmed; `None` where byte ten does not start a character.
pub open spec fn include_target(line: Seq<char>) -> Option<Seq<char>> {
    match skip_bytes(line, 10) {
        Some(rest) => Some(trim(rest)),
        None => None,
    }
}

// ---------------------------------------------------------------------------
// The preprocessor model.
// ---------------------------------------------------------------------------

/// The code of the first file with the given name.
pub open spec fn lookup(files: Seq<(Seq<char>, Seq<char>)>, name: Seq<char>) -> Option<Seq<char>>
    decreases files.len(),
{
    if files.len() == 0 {
        None
    } else if files[0].0 == name {
        Some(files[0].1)
    } else {
        lookup(files.drop_first(), name)
    }
}

/// The file `name` with every include line replaced by the expansion of
/// the file that it names, with at most `fuel` nested expansions. A file that
/// is not there expands to the empty text. `None` where the expansion needs
/// more nesting than `fuel`, or where an include line cannot be sliced.
pub open spec fn expand(files: Seq<(Seq<char>, Seq<char>)>, name: Seq<char>, fuel: nat) -> Option<
    Seq<char>,
>
    decreases fuel, 0nat,
{
    if fuel == 0 {
        None
    } else {
        match lookup(files, name) {
            None => Some(seq![]),
            Some(code) => match expand_lines(files, lines(code), (fuel - 1) as nat) {
                Some(done) => Some(join_lines(done)),
                None => None,
            },
        }
    }
}

/// The lines with every include line expanded (see `expand`).
pub open spec fn expand_lines(files: Seq<(Seq<char>, Seq<char>)>, ls: Seq<Seq<char>>, fuel: nat) -> Option<
    Seq<Seq<char>>,
>
    decreases fuel, ls.len(),
{
    if ls.len() == 0 {
        Some(seq![])
    } else {
        match expand_lines(files, ls.drop_last(), fuel) {
            None => None,
            Some(done) => {
                let line = ls.last();
                if is_include_line(line) {
                    match include_target(line) {
                        None => None,
                        Some(target) => match expand(files, target, fuel) {
                            None => None,
                            Some(text) => Some(done.push(text)),
                        },
                    }
                } else {
                    Some(done.push(line))
                }
            },
        }
    }
}

/// Whether expanding the file `name` comes to an end without a bad slice:
/// its includes form no cycle and each include line can be sliced.
pub open spec fn expansion_terminates(files: Seq<(Seq<char>, Seq<char>)>, name: Seq<char>) -> bool {
    exists|fuel: nat| #[trigger] expand(files, name, fuel) is Some
}

/// The expanded text of file `name` (meaningful where the expansion
/// terminates; see `lemma_processed_unique`).
pub open spec fn processed(files: Seq<(Seq<char>, Seq<char>)>, name: Seq<char>) -> Seq<char> {
    expand(files, name, choose|fuel: nat| #[trigger] expand(files, name, fuel) is Some)->0
}

/// The files as given to the preprocessor, each name with its code.
pub open spec fn source_views(files: Seq<(&str, &str)>) -> Seq<(Seq<char>, Seq<char>)> {
    files.map_values(|p: (&str, &str)| (p.0@, p.1@))
}

/// The names of the files.
pub open spec fn file_names(files: Seq<(Seq<char>, Seq<char>)>) -> Set<Seq<char>> {
    Set::new(|name: Seq<char>| exists|i: int| 0 <= i < files.len() && #[trigger] files[i].0 == name)
}

spec fn char_views(files: Seq<(Vec<char>, Vec<char>)>) -> Seq<(Seq<char>, Seq<char>)> {
    files.map_values(|p: (Vec<char>, Vec<char>)| (p.0@, p.1@))
}

spec fn line_views(ls: Seq<Vec<char>>) -> Seq<Seq<char>> {
    ls.map_values(|l: Vec<char>| l@)
}

// ---------------------------------------------------------------------------
// Lemmas.
// ---------------------------------------------------------------------------

proof fn lemma_leading_true(flags: Seq<bool>, i: int)
    requires
        0 <= i <= flags.len(),
        forall|k: int| 0 <= k < i ==> #[trigger] flags[k],
        i == flags.len() || !flags[i],
    ensures
        leading_true(flags) == i,
    decreases i,
{
    if i > 0 {
        lemma_leading_true(flags.drop_first(), i - 1);
    }
}

proof fn lemma_trailing_true(flags: Seq<bool>, j: int)
    requires
        0 <= j <= flags.len(),
        forall|k: int| j <= k < flags.len() ==> #[trigger] flags[k],
        j == 0 || !flags[j - 1],
    ensures
        trailing_true(flags) == flags.len() - j,
    decreases flags.len() - j,
{
    if j < flags.len() {
        lemma_trailing_true(flags.drop_last(), j);
    }
}

proof fn lemma_join_push(ds: Seq<Seq<char>>, x: Seq<char>)
    ensures
        join_lines(ds.push(x)) == (if ds.len() == 0 {
            x
        } else {
            join_lines(ds) + seq!['\n'] + x
        }),
{
    assert(ds.push(x).drop_last() =~= ds);
}

proof fn lemma_expand_lines_prefix(
    files: Seq<(Seq<char>, Seq<char>)>,
    ls: Seq<Seq<char>>,
    fuel: nat,
    k: int,
)
    requires
        0 <= k <= ls.len(),
        expand_lines(files, ls, fuel) is Some,
    ensures
        expand_lines(files, ls.take(k), fuel) is Some,
    decreases ls.len(),
{
    if k == ls.len() {
        assert(ls.take(k) =~= ls);
    } else {
        lemma_expand_lines_prefix(files, ls.drop_last(), fuel, k);
        assert(ls.drop_last().take(k) =~= ls.take(k));
    }
}

proof fn lemma_expand_fuel_step(files: Seq<(Seq<char>, Seq<char>)>, name: Seq<char>, fuel: nat)
    requires
        expand(files, name, fuel) is Some,
    ensures
        expand(files, name, fuel + 1) == expand(files, name, fuel),
    decreases fuel, 0nat,
{
    match lookup(files, name) {
        None => {},
        Some(code) => {
            lemma_expand_lines_fuel_step(files, lines(code), (fuel - 1) as nat);
        },
    }
}

proof fn lemma_expand_lines_fuel_step(
    files: Seq<(Seq<char>, Seq<char>)>,
    ls: Seq<Seq<char>>,
    fuel: nat,
)
    requires
        expand_lines(files, ls, fuel) is Some,
    ensures
        expand_lines(files, ls, fuel + 1) == expand_lines(files, ls, fuel),
    decreases fuel, ls.len(),
{
    if ls.len() > 0 {
        lemma_expand_lines_fuel_step(files, ls.drop_last(), fuel);
        let line = ls.last();
        if is_include_line(line) {
            let target = include_target(line)->0;
            lemma_expand_fuel_step(files, target, fuel);
        }
    }
}

proof fn lemma_expand_fuel_mono(
    files: Seq<(Seq<char>, Seq<char>)>,
    name: Seq<char>,
    fuel: nat,
    more: nat,
)
    requires
        expand(files, name, fuel) is Some,
        fuel <= more,
    ensures
        expand(files, name, more) == expand(files, name, fuel),
    decreases more - fuel,
{
    if fuel < more {
        lemma_expand_fuel_step(files, name, fuel);
        lemma_expand_fuel_mono(files, name, fuel + 1, more);
    }
}

/// Law: the expansion of a file does not depend on how much nesting was
/// allowed, once it succeeds; so `processed` is the one text that every
/// successful expansion gives.
pub proof fn lemma_processed_unique(files: Seq<(Seq<char>, Seq<char>)>, name: Seq<char>, fuel: nat)
    requires
        expand(files, name, fuel) is Some,
    ensures
        expansion_terminates(files, name),
        processed(files, name) == expand(files, name, fuel)->0,
{
    let chosen = choose|f: nat| #[trigger] expand(files, name, f) is Some;
    assert(expand(files, name, chosen) is Some);
    if chosen <= fuel {
        lemma_expand_fuel_mono(files, name, chosen, fuel);
    } else {
        lemma_expand_fuel_mono(files, name, fuel, chosen);
    }
}

proof fn lemma_expand_lines_plain(files: Seq<(Seq<char>, Seq<char>)>, ls: Seq<Seq<char>>, fuel: nat)
    requires
        forall|i: int| 0 <= i < ls.len() ==> !is_include_line(#[trigger] ls[i]),
    ensures
        expand_lines(files, ls, fuel) == Some(ls),
    decreases ls.len(),
{
    if ls.len() > 0 {
        lemma_expand_lines_plain(files, ls.drop_last(), fuel);
        assert(ls.drop_last().push(ls.last()) =~= ls);
    }
}

/// Law: a file without include lines comes out as its own lines joined
/// with `\n` (line endings normalised, a final line ending dropped).
pub proof fn lemma_no_directives(files: Seq<(Seq<char>, Seq<char>)>, name: Seq<char>, code: Seq<char>)
    requires
        lookup(files, name) == Some(code),
        forall|i: int| 0 <= i < lines(code).len() ==> !is_include_line(#[trigger] lines(code)[i]),
    ensures
        expansion_terminates(files, name),
        processed(files, name) == join_lines(lines(code)),
{
    lemma_expand_lines_plain(files, lines(code), 0);
    assert(expand(files, name, 1) == Some(join_lines(lines(code))));
    lemma_processed_unique(files, name, 1);
}

/// Law: a name that no file has expands to the empty text.
pub proof fn lemma_missing_file(files: Seq<(Seq<char>, Seq<char>)>, name: Seq<char>)
    requires
        lookup(files, name) is None,
    ensures
        expansion_terminates(files, name),
        processed(files, name) == Seq::<char>::empty(),
{
    assert(expand(files, name, 1) == Some(Seq::<char>::empty()));
    lemma_processed_unique(files, name, 1);
}

// ---------------------------------------------------------------------------
// Executable text functions.
// ---------------------------------------------------------------------------

/// The number of bytes that UTF-8 uses for `c`.
fn char_width(c: char) -> (w: usize)
    ensures
        w == utf8_width(c),
{
    let code: u32 = c as u32;
    if code < 0x80 {
        1
    } else if code < 0x800 {
        2
    } else if code < 0x10000 {
        3
    } else {
        4
    }
}

/// The character index at which byte `n` of `line` begins, if it begins one.
fn char_index_at_byte(line: &Vec<char>, n: usize) -> (r: Option<usize>)
    ensures
        match r {
            Some(k) => k <= line@.len() && skip_bytes(line@, n as int) == Some(line@.skip(k as int)),
            None => skip_bytes(line@, n as int) is None,
        },
{
    let mut k: usize = 0;
    let mut rem: usize = n;
    assert(line@.skip(0) =~= line@);
    while k < line.len() && rem > 0
        invariant
            k <= line@.len(),
            skip_bytes(line@, n as int) == skip_bytes(line@.skip(k as int), rem as int),
        decreases line@.len() - k,
    {
        let w = char_width(line[k]);
        assert(line@.skip(k as int).drop_first() =~= line@.skip(k + 1));
        if w > rem {
            assert(skip_bytes(line@.skip(k as int).drop_first(), rem - w) is None);
            return None;
        }
        rem = rem - w;
        k = k + 1;
    }
    if rem == 0 {
        Some(k)
    } else {
        None
    }
}

/// The bounds of what is left of a text once white space is removed at
/// both ends, given for each character whether it is white space.
pub fn trim_bounds_of(flags: &[bool]) -> (r: (usize, usize))
    ensures
        r.0 <= r.1 <= flags@.len(),
        (r.0 as int, r.1 as int) == trim_range(flags@),
{
    let n = flags.len();
    let mut i: usize = 0;
    while i < n && flags[i]
        invariant
            i <= n,
            n == flags@.len(),
            forall|k: int| 0 <= k < i ==> #[trigger] flags@[k],
        decreases n - i,
    {
        i = i + 1;
    }
    proof {
        lemma_leading_true(flags@, i as int);
    }
    let mut j: usize = n;
    while j > i && flags[j - 1]
        invariant
            i <= j <= n,
            n == flags@.len(),
            forall|k: int| j <= k < n ==> #[trigger] flags@[k],
        decreases j,
    {
        j = j - 1;
    }
    proof {
        let t = flags@.skip(i as int);
        assert forall|k: int| (j - i) <= k < t.len() implies #[trigger] t[k] by {
            assert(t[k] == flags@[k + i]);
        }
        if j > i {
            assert(t[j - i - 1] == flags@[j - 1]);
        }
        lemma_trailing_true(t, j - i);
    }
    (i, j)
}

/// The bounds of `line` without white space at either end.
fn trim_bounds(line: &Vec<char>) -> (r: (usize, usize))
    ensures
        r.0 <= r.1 <= line@.len(),
        trim(line@) == line@.subrange(r.0 as int, r.1 as int),
{
    let mut flags: Vec<bool> = Vec::new();
    let mut k: usize = 0;
    while k < line.len()
        invariant
            k <= line@.len(),
            flags@ == white_space_flags(line@).take(k as int),
        decreases line@.len() - k,
    {
        flags.push(is_white_space(line[k]));
        k = k + 1;
        assert(flags@ =~= white_space_flags(line@).take(k as int));
    }
    assert(flags@ =~= white_space_flags(line@));
    trim_bounds_of(flags.as_slice())
}

/// The `k`-th character of `//#include`.
fn directive_char(k: usize) -> (c: char)
    requires
        k < 10,
    ensures
        c == include_directive()[k as int],
{
    match k {
        0 => '/',
        1 => '/',
        2 => '#',
        3 => 'i',
        4 => 'n',
        5 => 'c',
        6 => 'l',
        7 => 'u',
        8 => 'd',
        _ => 'e',
    }
}

/// Whether the line is an include line.
fn is_include(line: &Vec<char>) -> (b: bool)
    ensures
        b == is_include_line(line@),
{
    let (i, j) = trim_bounds(line);
    let ghost t = line@.subrange(i as int, j as int);
    if j - i < 10 {
        assert(t.len() < include_directive().len());
        return false;
    }
    let mut k: usize = 0;
    while k < 10
        invariant
            k <= 10,
            i + 10 <= j <= line@.len(),
            t == line@.subrange(i as int, j as int),
            trim(line@) == t,
            forall|m: int| 0 <= m < k ==> t[m] == include_directive()[m],
        decreases 10 - k,
    {
        if line[i + k] != directive_char(k) {
            assert(t.take(10)[k as int] != include_directive()[k as int]);
            return false;
        }
        k = k + 1;
    }
    assert(t.take(10) =~= include_directive());
    true
}

/// The trimmed text of `line` after its first ten bytes, if byte ten
/// begins a character.
fn include_target_of(line: &Vec<char>) -> (r: Option<Vec<char>>)
    ensures
        match r {
            Some(t) => include_target(line@) == Some(t@),
            None => include_target(line@) is None,
        },
{
    match char_index_at_byte(line, 10) {
        None => None,
        Some(k) => {
            let mut rest: Vec<char> = Vec::new();
            let mut m: usize = k;
            while m < line.len()
                invariant
                    k <= m <= line@.len(),
                    rest@ == line@.subrange(k as int, m as int),
                decreases line@.len() - m,
            {
                rest.push(line[m]);
                m = m + 1;
                assert(rest@ =~= line@.subrange(k as int, m as int));
            }
            assert(rest@ =~= line@.skip(k as int));
            let (i, j) = trim_bounds(&rest);
            let mut target: Vec<char> = Vec::new();
            let mut p: usize = i;
            while p < j
                invariant
                    i <= p <= j <= rest@.len(),
                    target@ == rest@.subrange(i as int, p as int),
                decreases j - p,
            {
                target.push(rest[p]);
                p = p + 1;
                assert(target@ =~= rest@.subrange(i as int, p as int));
            }
            Some(target)
        },
    }
}

/// The lines of a text (see `lines`).
fn split_lines(s: &Vec<char>) -> (r: Vec<Vec<char>>)
    ensures
        line_views(r@) == lines(s@),
{
    let mut out: Vec<Vec<char>> = Vec::new();
    let mut cur: Vec<char> = Vec::new();
    let mut j: usize = 0;
    assert(s@.skip(0) =~= s@);
    assert(line_views(out@) =~= Seq::<Seq<char>>::empty());
    while j < s.len()
        invariant
            j <= s@.len(),
            line_views(out@) + lines_from(s@.skip(j as int), cur@) == lines(s@),
        decreases s@.len() - j,
    {
        let c = s[j];
        assert(s@.skip(j as int).drop_first() =~= s@.skip(j + 1));
        assert(s@.skip(j as int)[0] == c);
        if c == '\n' {
            let ghost before = line_views(out@);
            let ghost cv = cur@;
            let mut line = cur;
            if line.len() > 0 && line[line.len() - 1] == '\r' {
                line.pop();
            }
            assert(line@ =~= strip_cr(cv));
            out.push(line);
            cur = Vec::new();
            assert(line_views(out@) =~= before + seq![strip_cr(cv)]);
        } else {
            cur.push(c);
        }
        j = j + 1;
    }
    if cur.len() > 0 {
        let ghost before = line_views(out@);
        out.push(cur);
        assert(line_views(out@) =~= before + seq![cur@]);
    } else {
        assert(line_views(out@) + lines_from(s@.skip(j as int), cur@) =~= line_views(out@));
    }
    out
}

/// The index of the first file with the given name.
fn find_file(files: &Vec<(Vec<char>, Vec<char>)>, name: &Vec<char>) -> (r: Option<usize>)
    ensures
        match r {
            Some(i) => i < files@.len() && files@[i as int].0@ == name@ && lookup(
                char_views(files@),
                name@,
            ) == Some(files@[i as int].1@),
            None => lookup(char_views(files@), name@) is None,
        },
{
    let ghost fv = char_views(files@);
    let mut i: usize = 0;
    assert(fv.skip(0) =~= fv);
    while i < files.len()
        invariant
            i <= files@.len(),
            fv == char_views(files@),
            lookup(fv, name@) == lookup(fv.skip(i as int), name@),
        decreases files@.len() - i,
    {
        assert(fv.skip(i as int)[0] == (files@[i as int].0@, files@[i as int].1@));
        if chars_eq(&files[i].0, name) {
            return Some(i);
        }
        assert(fv.skip(i as int).drop_first() =~= fv.skip(i + 1));
        i = i + 1;
    }
    None
}

/// The expansion of file `name` (see `expand`), which must succeed within
/// `fuel` nested expansions.
fn process(files: &Vec<(Vec<char>, Vec<char>)>, name: &Vec<char>, Ghost(fuel): Ghost<nat>) -> (r:
    Vec<char>)
    requires
        expand(char_views(files@), name@, fuel) is Some,
    ensures
        r@ == expand(char_views(files@), name@, fuel)->0,
    decreases fuel,
{
    let ghost fv = char_views(files@);
    match find_file(files, name) {
        None => Vec::new(),
        Some(idx) => {
            let code = &files[idx].1;
            let ls = split_lines(code);
            let ghost lv = line_views(ls@);
            let ghost inner: nat = (fuel - 1) as nat;
            let mut out: Vec<char> = Vec::new();
            let ghost mut done: Seq<Seq<char>> = seq![];
            let mut k: usize = 0;
            assert(lv.take(0) =~= Seq::<Seq<char>>::empty());
            while k < ls.len()
                invariant
                    k <= ls@.len(),
                    fuel > 0,
                    inner == fuel - 1,
                    fv == char_views(files@),
                    lv == line_views(ls@),
                    lv.len() == ls@.len(),
                    expand_lines(fv, lv, inner) is Some,
                    expand_lines(fv, lv.take(k as int), inner) == Some(done),
                    out@ == join_lines(done),
                    done.len() == k,
                decreases ls@.len() - k,
            {
                let line = &ls[k];
                proof {
                    lemma_expand_lines_prefix(fv, lv, inner, k + 1);
                    assert(lv.take(k + 1).drop_last() =~= lv.take(k as int));
                    assert(lv.take(k + 1).last() == line@);
                }
                let mut piece: Vec<char>;
                if is_include(line) {
                    match include_target_of(line) {
                        Some(target) => {
                            piece = process(files, &target, Ghost(inner));
                        },
                        None => {
                            proof {
                                assert(false);
                            }
                            piece = Vec::new();
                        },
                    }
                } else {
                    piece = Vec::new();
                    let mut m: usize = 0;
                    while m < line.len()
                        invariant
                            m <= line@.len(),
                            piece@ == line@.take(m as int),
                        decreases line@.len() - m,
                    {
                        piece.push(line[m]);
                        m = m + 1;
                        assert(piece@ =~= line@.take(m as int));
                    }
                    assert(line@.take(m as int) =~= line@);
                }
                proof {
                    lemma_join_push(done, piece@);
                }
                if k > 0 {
                    out.push('\n');
                }
                let ghost pv = piece@;
                out.append(&mut piece);
                proof {
                    done = done.push(pv);
                }
                k = k + 1;
            }
            proof {
                assert(lv.take(k as int) =~= lv);
            }
            out
        },
    }
}

/// Shader sources with their `//#include` lines expanded.
pub struct WgslPreprocessor {
    shader_code: StringHashMap<String>,
}

impl View for WgslPreprocessor {
    type V = Map<Seq<char>, Seq<char>>;

    /// Each file name with its expanded code.
    closed spec fn view(&self) -> Map<Seq<char>, Seq<char>> {
        self.shader_code@.map_values(|code: String| code@)
    }
}

/// The files as character vectors, in the same order.
fn char_files(shader_code: &Vec<(&'static str, &'static str)>) -> (r: Vec<(Vec<char>, Vec<char>)>)
    ensures
        char_views(r@) == source_views(shader_code@),
{
    let mut r: Vec<(Vec<char>, Vec<char>)> = Vec::new();
    let mut i: usize = 0;
    while i < shader_code.len()
        invariant
            i <= shader_code@.len(),
            char_views(r@) == source_views(shader_code@).take(i as int),
        decreases shader_code@.len() - i,
    {
        let (name, code) = shader_code[i];
        let ghost before = char_views(r@);
        r.push((chars_of(name), chars_of(code)));
        assert(char_views(r@) =~= before.push((name@, code@)));
        i = i + 1;
        assert(char_views(r@) =~= source_views(shader_code@).take(i as int));
    }
    assert(source_views(shader_code@).take(i as int) =~= source_views(shader_code@));
    r
}

impl WgslPreprocessor {
    /// Expands every file of `shader_code` (a file name with its code).
    /// Each line that, trimmed, begins with `//#include` is replaced by the
    /// expansion of the file named by the rest of the line (the line after
    /// its first ten bytes, trimmed); a name that no file has gives the empty
    /// text. The lines of the result are joined with `\n`. The expansion of
    /// each file must come to an end (no include cycle, no include line that
    /// cannot be sliced after ten bytes).
    pub fn new(shader_code: Vec<(&'static str, &'static str)>) -> (r: Self)
        requires
            forall|i: int|
                0 <= i < shader_code@.len() ==> expansion_terminates(
                    source_views(shader_code@),
                    #[trigger] shader_code@[i].0@,
                ),
        ensures
            r@.dom() == file_names(source_views(shader_code@)),
            forall|name: Seq<char>| #[trigger]
                r@.contains_key(name) ==> r@[name] == processed(
                    source_views(shader_code@),
                    name,
                ),
    {
        let ghost sv = source_views(shader_code@);
        let files = char_files(&shader_code);
        let mut map: StringHashMap<String> = StringHashMap::new();
        let mut i: usize = 0;
        while i < shader_code.len()
            invariant
                i <= shader_code@.len(),
                sv == source_views(shader_code@),
                char_views(files@) == sv,
                forall|j: int|
                    0 <= j < shader_code@.len() ==> expansion_terminates(
                        sv,
                        #[trigger] shader_code@[j].0@,
                    ),
                map@.dom() == file_names(sv.take(i as int)),
                forall|name: Seq<char>| #[trigger]
                    map@.contains_key(name) ==> map@[name]@ == processed(sv, name),
            decreases shader_code@.len() - i,
        {
            let name: &str = shader_code[i].0;
            assert(sv[i as int].0 == name@);
            assert(files@[i as int].0@ == name@) by {
                assert(char_views(files@)[i as int] == (files@[i as int].0@, files@[i as int].1@));
            }
            assert(expansion_terminates(sv, shader_code@[i as int].0@));
            let ghost fuel = choose|f: nat| #[trigger] expand(sv, name@, f) is Some;
            let code = process(&files, &files[i].0, Ghost(fuel));
            let text = string_of(&code);
            let ghost before = map@;
            map.insert(name.to_string(), text);
            proof {
                assert(file_names(sv.take(i + 1)) =~= file_names(sv.take(i as int)).insert(name@))
                    by {
                    assert(sv.take(i + 1)[i as int].0 == name@);
                    assert forall|x: Seq<char>| #[trigger]
                        file_names(sv.take(i + 1)).contains(x) implies file_names(
                        sv.take(i as int),
                    ).insert(name@).contains(x) by {
                        let k = choose|k: int|
                            0 <= k < sv.take(i + 1).len() && #[trigger] sv.take(i + 1)[k].0 == x;
                        if k < i {
                            assert(sv.take(i as int)[k].0 == x);
                        }
                    }
                    assert forall|x: Seq<char>| #[trigger]
                        file_names(sv.take(i as int)).insert(name@).contains(x) implies file_names(
                        sv.take(i + 1),
                    ).contains(x) by {
                        if x != name@ {
                            let k = choose|k: int|
                                0 <= k < sv.take(i as int).len() && #[trigger] sv.take(
                                    i as int,
                                )[k].0 == x;
                            assert(sv.take(i + 1)[k].0 == x);
                        }
                    }
                }
            }
            i = i + 1;
        }
        assert(sv.take(i as int) =~= sv);
        let r = WgslPreprocessor { shader_code: map };
        assert(r@.dom() =~= map@.dom());
        r
    }

    /// Expands every file as `new` does where the expansion of every file
    /// comes to an end; `None` where one does not (an include cycle, or an
    /// include line that cannot be sliced after ten bytes).
    pub fn try_new(shader_code: Vec<(&'static str, &'static str)>) -> (r: Option<Self>)
        ensures
            r is Some <==> forall|i: int|
                0 <= i < shader_code@.len() ==> expansion_terminates(
                    source_views(shader_code@),
                    #[trigger] shader_code@[i].0@,
                ),
            r matches Some(p) ==> {
                &&& p@.dom() == file_names(source_views(shader_code@))
                &&& forall|name: Seq<char>| #[trigger]
                    p@.contains_key(name) ==> p@[name] == processed(
                        source_views(shader_code@),
                        name,
                    )
            },
    {
        let files = char_files(&shader_code);
        let ends = all_expansions_end(&files);
        proof {
            let sv = source_views(shader_code@);
            assert(char_views(files@).len() == files@.len());
            assert(sv.len() == shader_code@.len());
            assert forall|i: int| 0 <= i < shader_code@.len() implies #[trigger] shader_code@[i].0@
                == files@[i].0@ by {
                assert(char_views(files@)[i] == sv[i]);
                assert(sv[i].0 == shader_code@[i].0@);
                assert(char_views(files@)[i].0 == files@[i].0@);
            }
            if forall|i: int|
                0 <= i < shader_code@.len() ==> expansion_terminates(
                    sv,
                    #[trigger] shader_code@[i].0@,
                ) {
                assert forall|i: int| 0 <= i < files@.len() implies expansion_terminates(
                    char_views(files@),
                    #[trigger] files@[i].0@,
                ) by {
                    assert(shader_code@[i].0@ == files@[i].0@);
                }
            }
            if forall|i: int|
                0 <= i < files@.len() ==> expansion_terminates(
                    char_views(files@),
                    #[trigger] files@[i].0@,
                ) {
                assert forall|i: int| 0 <= i < shader_code@.len() implies expansion_terminates(
                    sv,
                    #[trigger] shader_code@[i].0@,
                ) by {
                    assert(shader_code@[i].0@ == files@[i].0@);
                }
            }
        }
        if ends {
            Some(Self::new(shader_code))
        } else {
            None
        }
    }

    /// The expanded code of the file `file_name`, which must be one of the
    /// files the preprocessor was built with.
    pub fn get_code(&self, file_name: String) -> (code: String)
        requires
            self@.contains_key(file_name@),
        ensures
            code@ == self@[file_name@],
    {
        match self.shader_code.get(file_name.as_str()) {
            Some(code) => code.clone(),
            None => {
                proof {
                    assert(false);
                }
                String::new()
            },
        }
    }
}

/// Whether line `k` of file `i` is an include line that names `name`.
pub open spec fn names_include(files: Seq<(Seq<char>, Seq<char>)>, i: int, k: int, name: Seq<char>) -> bool {
    let line = lines(files[i].1)[k];
    is_include_line(line) && include_target(line) == Some(name)
}

/// Whether `name` is named by an include line of some file and no file has
/// that name: the names whose expansion reports a missing file.
pub open spec fn is_missing_include(files: Seq<(Seq<char>, Seq<char>)>, name: Seq<char>) -> bool {
    &&& lookup(files, name) is None
    &&& exists|i: int, k: int|
        0 <= i < files.len() && 0 <= k < lines(files[i].1).len() && #[trigger] names_include(
            files,
            i,
            k,
            name,
        )
}

/// Law: the file that a line beginning with `//#include` names is the rest
/// of the line after the directive, with white space at both ends removed.
pub proof fn lemma_target_follows_directive(rest: Seq<char>)
    ensures
        include_target(include_directive() + rest) == Some(trim(rest)),
{
    lemma_skip_directive(rest, 0);
    assert(include_directive().skip(0) =~= include_directive());
}

/// Law: a line that begins with `//#include` is an include line, whatever
/// follows the directive.
pub proof fn lemma_directive_makes_include(rest: Seq<char>)
    ensures
        is_include_line(include_directive() + rest),
{
    let s = include_directive() + rest;
    let flags = white_space_flags(s);
    assert(!flags[0]);
    assert(!flags[9]);
    assert(flags.skip(0) =~= flags);
    lemma_trailing_stops(flags, 9);
    let r = trim_range(flags);
    assert(r.0 == 0);
    assert(r.1 >= 10);
    assert(trim(s).take(10) =~= include_directive());
}

proof fn lemma_trailing_stops(flags: Seq<bool>, idx: int)
    requires
        0 <= idx < flags.len(),
        !flags[idx],
    ensures
        trailing_true(flags) <= flags.len() - 1 - idx,
    decreases flags.len(),
{
    if flags.last() {
        lemma_trailing_stops(flags.drop_last(), idx);
    }
}

proof fn lemma_skip_directive(rest: Seq<char>, j: int)
    requires
        0 <= j <= 10,
    ensures
        skip_bytes(include_directive().skip(j) + rest, 10 - j) == Some(rest),
    decreases 10 - j,
{
    let s = include_directive().skip(j) + rest;
    if j == 10 {
        assert(s =~= rest);
    } else {
        lemma_skip_directive(rest, j + 1);
        assert(s[0] == include_directive()[j]);
        assert(s.drop_first() =~= include_directive().skip(j + 1) + rest);
    }
}

/// Law: a name is a missing include exactly when no file has that name and
/// some line of some file, the last line of a file included, is an include
/// line that names it.
pub proof fn lemma_missing_include_lines(files: Seq<(Seq<char>, Seq<char>)>, name: Seq<char>)
    ensures
        is_missing_include(files, name) <==> (lookup(files, name) is None && exists|i: int, k: int|
            0 <= i < files.len() && 0 <= k < lines(files[i].1).len() && is_include_line(
                #[trigger] lines(files[i].1)[k],
            ) && include_target(lines(files[i].1)[k]) == Some(name)),
{
    if is_missing_include(files, name) {
        let (i, k) = choose|i: int, k: int|
            0 <= i < files.len() && 0 <= k < lines(files[i].1).len() && #[trigger] names_include(
                files,
                i,
                k,
                name,
            );
        assert(is_include_line(lines(files[i].1)[k]));
    }
    if lookup(files, name) is None && exists|i: int, k: int|
        0 <= i < files.len() && 0 <= k < lines(files[i].1).len() && is_include_line(
            #[trigger] lines(files[i].1)[k],
        ) && include_target(lines(files[i].1)[k]) == Some(name) {
        let (i, k) = choose|i: int, k: int|
            0 <= i < files.len() && 0 <= k < lines(files[i].1).len() && is_include_line(
                #[trigger] lines(files[i].1)[k],
            ) && include_target(lines(files[i].1)[k]) == Some(name);
        assert(names_include(files, i, k, name));
    }
}

spec fn named_before(files: Seq<(Seq<char>, Seq<char>)>, i: int, k: int, name: Seq<char>) -> bool {
    exists|i2: int, k2: int|
        0 <= i2 <= i && i2 < files.len() && 0 <= k2 < lines(files[i2].1).len() && (i2 < i || k2
            < k) && #[trigger] names_include(files, i2, k2, name)
}

fn contains_chars(names: &Vec<Vec<char>>, name: &Vec<char>) -> (b: bool)
    ensures
        b == line_views(names@).contains(name@),
{
    let mut j: usize = 0;
    while j < names.len()
        invariant
            j <= names@.len(),
            forall|m: int| 0 <= m < j ==> #[trigger] names@[m]@ != name@,
        decreases names@.len() - j,
    {
        if chars_eq(&names[j], name) {
            assert(line_views(names@)[j as int] == name@);
            return true;
        }
        j = j + 1;
    }
    assert forall|m: int| 0 <= m < line_views(names@).len() implies #[trigger] line_views(
        names@,
    )[m] != name@ by {
        assert(names@[m]@ != name@);
    }
    false
}

/// The views of a sequence of strings.
pub open spec fn string_views(v: Seq<String>) -> Seq<Seq<char>> {
    v.map_values(|s: String| s@)
}

/// The names that include lines of the files give and that no file has,
/// each once: each is reported as a missing file when the files are
/// expanded. Include lines that cannot be sliced name nothing.
pub fn missing_includes(shader_code: &Vec<(&'static str, &'static str)>) -> (r: Vec<String>)
    ensures
        forall|name: Seq<char>|
            #![trigger is_missing_include(source_views(shader_code@), name)]
            #![trigger string_views(r@).contains(name)]
            is_missing_include(source_views(shader_code@), name) <==> string_views(r@).contains(
                name,
            ),
        string_views(r@).no_duplicates(),
{
    let ghost sv = source_views(shader_code@);
    let files = char_files(shader_code);
    let mut found: Vec<Vec<char>> = Vec::new();
    let mut i: usize = 0;
    while i < files.len()
        invariant
            i <= files@.len(),
            char_views(files@) == sv,
            forall|name: Seq<char>|
                #![trigger named_before(sv, i as int, 0, name)]
                #![trigger line_views(found@).contains(name)]
                (lookup(sv, name) is None && named_before(sv, i as int, 0, name)) <==> line_views(
                    found@,
                ).contains(name),
            line_views(found@).no_duplicates(),
        decreases files@.len() - i,
    {
        let ls = split_lines(&files[i].1);
        assert(sv[i as int].1 == files@[i as int].1@);
        let ghost lv = line_views(ls@);
        let mut k: usize = 0;
        assert forall|name: Seq<char>|
            (lookup(sv, name) is None && #[trigger] named_before(sv, i as int, k as int, name))
                <==> line_views(found@).contains(name) by {
            assert(named_before(sv, i as int, 0, name) == named_before(sv, i as int, k as int, name));
        }
        while k < ls.len()
            invariant
                i < files@.len(),
                k <= ls@.len(),
                char_views(files@) == sv,
                lv == line_views(ls@),
                lv == lines(sv[i as int].1),
                forall|name: Seq<char>|
                    #![trigger named_before(sv, i as int, k as int, name)]
                    #![trigger line_views(found@).contains(name)]
                    (lookup(sv, name) is None && named_before(sv, i as int, k as int, name))
                        <==> line_views(found@).contains(name),
                line_views(found@).no_duplicates(),
            decreases ls@.len() - k,
        {
            let line = &ls[k];
            assert(lv[k as int] == line@);
            let ghost before = line_views(found@);
            let mut added: Option<Vec<char>> = None;
            if is_include(line) {
                if let Some(target) = include_target_of(line) {
                    if find_file(&files, &target).is_none() && !contains_chars(&found, &target) {
                        added = Some(target);
                    }
                }
            }
            proof {
                assert forall|name: Seq<char>|
                    #[trigger] named_before(sv, i as int, k + 1, name) <==> (named_before(
                        sv,
                        i as int,
                        k as int,
                        name,
                    ) || names_include(sv, i as int, k as int, name)) by {
                    if named_before(sv, i as int, k + 1, name) {
                        let (i2, k2) = choose|i2: int, k2: int|
                            0 <= i2 <= i && i2 < sv.len() && 0 <= k2 < lines(sv[i2].1).len() && (
                            i2 < i || k2 < k + 1) && #[trigger] names_include(sv, i2, k2, name);
                        if !(i2 < i || k2 < k) {
                            assert(i2 == i && k2 == k);
                        }
                    }
                    if names_include(sv, i as int, k as int, name) {
                        assert(0 <= k < lines(sv[i as int].1).len());
                    }
                }
            }
            proof {
                assert forall|name: Seq<char>|
                    #[trigger] names_include(sv, i as int, k as int, name) <==> (is_include_line(
                        line@,
                    ) && include_target(line@) == Some(name)) by {}
            }
            let ghost added_view: Option<Seq<char>> = match &added {
                Some(t) => Some(t@),
                None => None,
            };
            proof {
                match added_view {
                    Some(tv) => {
                        assert(is_include_line(line@) && include_target(line@) == Some(tv));
                        assert(names_include(sv, i as int, k as int, tv));
                        assert(lookup(sv, tv) is None);
                        assert(!before.contains(tv));
                    },
                    None => {},
                }
            }
            match added {
                Some(t) => {
                    found.push(t);
                },
                None => {},
            }
            proof {
                let after = line_views(found@);
                match added_view {
                    Some(tv) => {
                        assert(after =~= before.push(tv));
                        assert forall|name: Seq<char>|
                            after.contains(name) <==> (before.contains(name) || name == tv) by {
                            if name == tv {
                                assert(after[before.len() as int] == name);
                            }
                            if before.contains(name) {
                                let j = choose|j: int| 0 <= j < before.len() && before[j] == name;
                                assert(after[j] == name);
                            }
                            if after.contains(name) {
                                let j = choose|j: int| 0 <= j < after.len() && after[j] == name;
                                if j < before.len() {
                                    assert(before[j] == name);
                                }
                            }
                        }
                        assert forall|a: int, b: int|
                            0 <= a < after.len() && 0 <= b < after.len() && a != b implies after[a]
                            != after[b] by {
                            if a == before.len() {
                                assert(before[b] == after[b]);
                            } else if b == before.len() {
                                assert(before[a] == after[a]);
                            } else {
                                assert(before[a] == after[a] && before[b] == after[b]);
                            }
                        }
                    },
                    None => {
                        assert(after =~= before);
                    },
                }
                assert forall|name: Seq<char>|
                    (lookup(sv, name) is None && #[trigger] named_before(
                        sv,
                        i as int,
                        k + 1,
                        name,
                    )) <==> after.contains(name) by {
                    assert(named_before(sv, i as int, k + 1, name) <==> (named_before(
                        sv,
                        i as int,
                        k as int,
                        name,
                    ) || names_include(sv, i as int, k as int, name)));
                    assert((lookup(sv, name) is None && named_before(sv, i as int, k as int, name))
                        <==> before.contains(name));
                }
            }
            k = k + 1;
        }
        proof {
            assert forall|name: Seq<char>|
                #[trigger] named_before(sv, i + 1, 0, name) == named_before(
                    sv,
                    i as int,
                    k as int,
                    name,
                ) by {
                if named_before(sv, i + 1, 0, name) {
                    let (i2, k2) = choose|i2: int, k2: int|
                        0 <= i2 <= i + 1 && i2 < sv.len() && 0 <= k2 < lines(sv[i2].1).len() && (i2
                            < i + 1 || k2 < 0) && #[trigger] names_include(sv, i2, k2, name);
                    assert(i2 < i || k2 < k);
                }
                if named_before(sv, i as int, k as int, name) {
                    let (i2, k2) = choose|i2: int, k2: int|
                        0 <= i2 <= i && i2 < sv.len() && 0 <= k2 < lines(sv[i2].1).len() && (i2 < i
                            || k2 < k) && #[trigger] names_include(sv, i2, k2, name);
                    assert(i2 < i + 1);
                }
            }
        }
        i = i + 1;
    }
    proof {
        assert forall|name: Seq<char>|
            #[trigger] is_missing_include(sv, name) == (lookup(sv, name) is None && named_before(
                sv,
                i as int,
                0,
                name,
            )) by {
            if is_missing_include(sv, name) {
                let (i2, k2) = choose|i2: int, k2: int|
                    0 <= i2 < sv.len() && 0 <= k2 < lines(sv[i2].1).len() && #[trigger] names_include(
                        sv,
                        i2,
                        k2,
                        name,
                    );
                assert(i2 < i);
            }
        }
    }
    let mut out: Vec<String> = Vec::new();
    let mut m: usize = 0;
    while m < found.len()
        invariant
            m <= found@.len(),
            string_views(out@) == line_views(found@).take(m as int),
        decreases found@.len() - m,
    {
        let ghost before = string_views(out@);
        let text = string_of(&found[m]);
        assert(text@ == line_views(found@)[m as int]);
        out.push(text);
        assert(string_views(out@) =~= before.push(text@));
        m = m + 1;
        assert(string_views(out@) =~= line_views(found@).take(m as int));
    }
    assert(line_views(found@).take(m as int) =~= line_views(found@));
    out
}

// ---------------------------------------------------------------------------
// Deciding whether every expansion comes to an end.
// ---------------------------------------------------------------------------

/// Whether a line lets an expansion with `fuel` nested expansions go on: a
/// plain line does; an include line does where it can be sliced and the
/// file it names expands within `fuel`.
pub open spec fn line_expands(files: Seq<(Seq<char>, Seq<char>)>, line: Seq<char>, fuel: nat) -> bool {
    !is_include_line(line) || match include_target(line) {
        Some(t) => expand(files, t, fuel) is Some,
        None => false,
    }
}

/// For each file, whether its expansion succeeds within `fuel` nested
/// expansions.
pub open spec fn expands_within(files: Seq<(Seq<char>, Seq<char>)>, fuel: nat) -> Seq<bool> {
    Seq::new(files.len(), |i: int| expand(files, files[i].0, fuel) is Some)
}

/// The number of `true` entries.
pub open spec fn count_true(s: Seq<bool>) -> nat
    decreases s.len(),
{
    if s.len() == 0 {
        0
    } else {
        count_true(s.drop_last()) + if s.last() {
            1nat
        } else {
            0nat
        }
    }
}

proof fn lemma_expand_lines_all(files: Seq<(Seq<char>, Seq<char>)>, ls: Seq<Seq<char>>, fuel: nat)
    ensures
        expand_lines(files, ls, fuel) is Some <==> forall|k: int|
            0 <= k < ls.len() ==> line_expands(files, #[trigger] ls[k], fuel),
    decreases ls.len(),
{
    if ls.len() > 0 {
        let n = ls.len() as int;
        let init = ls.drop_last();
        lemma_expand_lines_all(files, init, fuel);
        assert(ls.last() == ls[n - 1]);
        if expand_lines(files, ls, fuel) is Some {
            assert forall|k: int| 0 <= k < n implies line_expands(files, #[trigger] ls[k], fuel) by {
                if k < n - 1 {
                    assert(init[k] == ls[k]);
                }
            }
        }
        if forall|k: int| 0 <= k < n ==> line_expands(files, #[trigger] ls[k], fuel) {
            assert forall|k: int| 0 <= k < init.len() implies line_expands(
                files,
                #[trigger] init[k],
                fuel,
            ) by {
                assert(line_expands(files, ls[k], fuel));
            }
            assert(line_expands(files, ls[n - 1], fuel));
        }
    }
}

proof fn lemma_expand_step(files: Seq<(Seq<char>, Seq<char>)>, name: Seq<char>, fuel: nat)
    ensures
        expand(files, name, fuel + 1) is Some <==> match lookup(files, name) {
            None => true,
            Some(code) => forall|k: int|
                0 <= k < lines(code).len() ==> line_expands(files, #[trigger] lines(code)[k], fuel),
        },
{
    match lookup(files, name) {
        None => {},
        Some(code) => {
            lemma_expand_lines_all(files, lines(code), fuel);
        },
    }
}

proof fn lemma_lookup_found(files: Seq<(Seq<char>, Seq<char>)>, name: Seq<char>)
    requires
        lookup(files, name) is Some,
    ensures
        exists|j: int|
            0 <= j < files.len() && #[trigger] files[j].0 == name && lookup(files, name) == Some(
                files[j].1,
            ),
    decreases files.len(),
{
    if files[0].0 != name {
        lemma_lookup_found(files.drop_first(), name);
        let j = choose|j: int|
            0 <= j < files.drop_first().len() && #[trigger] files.drop_first()[j].0 == name && lookup(
                files.drop_first(),
                name,
            ) == Some(files.drop_first()[j].1);
        assert(files[j + 1].0 == name);
    } else {
        assert(files[0].0 == name);
    }
}

proof fn lemma_stable(files: Seq<(Seq<char>, Seq<char>)>, fuel: nat, more: nat)
    requires
        fuel >= 1,
        expands_within(files, fuel + 1) == expands_within(files, fuel),
    ensures
        expands_within(files, fuel + more) == expands_within(files, fuel),
    decreases more,
{
    if more > 0 {
        let m1 = (more - 1) as nat;
        lemma_stable(files, fuel, m1);
        assert forall|i: int| 0 <= i < files.len() implies (expand(files, files[i].0, fuel + more)
            is Some) == (expand(files, files[i].0, fuel) is Some) by {
            let name = files[i].0;
            let f1 = (fuel + m1) as nat;
            lemma_expand_step(files, name, f1);
            lemma_expand_step(files, name, fuel);
            assert(f1 + 1 == fuel + more);
            assert(expand(files, name, (f1 + 1) as nat) == expand(files, name, fuel + more));
            assert(expands_within(files, fuel + 1)[i] == (expand(files, name, fuel + 1) is Some));
            assert(expands_within(files, fuel + 1)[i] == expands_within(files, fuel)[i]);
            match lookup(files, name) {
                None => {},
                Some(code) => {
                    assert forall|k: int| 0 <= k < lines(code).len() implies line_expands(
                        files,
                        #[trigger] lines(code)[k],
                        (fuel + m1) as nat,
                    ) == line_expands(files, lines(code)[k], fuel) by {
                        let line = lines(code)[k];
                        if is_include_line(line) {
                            match include_target(line) {
                                None => {},
                                Some(t) => {
                                    if lookup(files, t) is Some {
                                        lemma_lookup_found(files, t);
                                        let j = choose|j: int|
                                            0 <= j < files.len() && #[trigger] files[j].0 == t
                                                && lookup(files, t) == Some(files[j].1);
                                        assert(expands_within(files, fuel + m1)[j]
                                            == expands_within(files, fuel)[j]);
                                    }
                                },
                            }
                        }
                    }
                    assert((forall|k: int|
                        0 <= k < lines(code).len() ==> line_expands(files, #[trigger] lines(code)[k], f1))
                        == (forall|k: int|
                        0 <= k < lines(code).len() ==> line_expands(
                            files,
                            #[trigger] lines(code)[k],
                            fuel,
                        )));
                },
            }
        }
        assert(expands_within(files, fuel + more) =~= expands_within(files, fuel));
    }
}

proof fn lemma_count_grows(a: Seq<bool>, b: Seq<bool>)
    requires
        a.len() == b.len(),
        forall|i: int| 0 <= i < a.len() && #[trigger] a[i] ==> b[i],
    ensures
        count_true(a) <= count_true(b) <= b.len(),
        a != b ==> count_true(a) < count_true(b),
    decreases a.len(),
{
    if a.len() == 0 {
        assert(a =~= b);
    } else {
        let n = a.len() as int;
        assert forall|i: int| 0 <= i < n - 1 && #[trigger] a.drop_last()[i] implies b.drop_last()[i] by {
            assert(a[i]);
        }
        lemma_count_grows(a.drop_last(), b.drop_last());
        assert(a.last() ==> b.last()) by {
            if a.last() {
                assert(a[n - 1]);
            }
        }
        if a != b && a.drop_last() == b.drop_last() {
            assert(a.last() != b.last()) by {
                if a.last() == b.last() {
                    assert forall|i: int| 0 <= i < n implies a[i] == b[i] by {
                        if i < n - 1 {
                            assert(a.drop_last()[i] == b.drop_last()[i]);
                        }
                    }
                    assert(a =~= b);
                }
            }
        }
    }
}

proof fn lemma_lookup_some(files: Seq<(Seq<char>, Seq<char>)>, i: int)
    requires
        0 <= i < files.len(),
    ensures
        lookup(files, files[i].0) is Some,
    decreases i,
{
    if i > 0 && files[0].0 != files[i].0 {
        lemma_lookup_some(files.drop_first(), i - 1);
        assert(files.drop_first()[i - 1] == files[i]);
    }
}

fn bools_eq(a: &Vec<bool>, b: &Vec<bool>) -> (r: bool)
    ensures
        r == (a@ == b@),
{
    if a.len() != b.len() {
        return false;
    }
    let mut i: usize = 0;
    while i < a.len()
        invariant
            i <= a@.len(),
            a@.len() == b@.len(),
            forall|k: int| 0 <= k < i ==> a@[k] == b@[k],
        decreases a@.len() - i,
    {
        if a[i] != b[i] {
            return false;
        }
        i = i + 1;
    }
    assert(a@ =~= b@);
    true
}

/// What a line of a file asks of an expansion.
#[derive(Clone, Copy, PartialEq, Eq, Structural)]
enum LineDep {
    /// Not an include line.
    Plain,
    /// An include line that cannot be sliced.
    Unsliceable,
    /// An include line that names no file.
    Missing,
    /// An include line that names the file at this index.
    File(usize),
}

spec fn dep_describes(files: Seq<(Seq<char>, Seq<char>)>, line: Seq<char>, d: LineDep) -> bool {
    match d {
        LineDep::Plain => !is_include_line(line),
        LineDep::Unsliceable => is_include_line(line) && include_target(line) is None,
        LineDep::Missing => is_include_line(line) && include_target(line) is Some && lookup(
            files,
            include_target(line)->0,
        ) is None,
        LineDep::File(j) => is_include_line(line) && include_target(line) is Some && 0 <= j
            < files.len() && files[j as int].0 == include_target(line)->0,
    }
}

spec fn dep_ok(d: LineDep, g: Seq<bool>, fuel: nat) -> bool {
    match d {
        LineDep::Plain => true,
        LineDep::Unsliceable => false,
        LineDep::Missing => fuel >= 1,
        LineDep::File(j) => g[j as int],
    }
}

proof fn lemma_dep_ok(files: Seq<(Seq<char>, Seq<char>)>, line: Seq<char>, d: LineDep, fuel: nat)
    requires
        dep_describes(files, line, d),
    ensures
        line_expands(files, line, fuel) == dep_ok(d, expands_within(files, fuel), fuel),
{
}

fn line_dep(files: &Vec<(Vec<char>, Vec<char>)>, line: &Vec<char>) -> (d: LineDep)
    ensures
        dep_describes(char_views(files@), line@, d),
{
    if !is_include(line) {
        return LineDep::Plain;
    }
    match include_target_of(line) {
        None => LineDep::Unsliceable,
        Some(t) => match find_file(files, &t) {
            None => LineDep::Missing,
            Some(j) => LineDep::File(j),
        },
    }
}

/// Whether the expansion of every file comes to an end.
fn all_expansions_end(files: &Vec<(Vec<char>, Vec<char>)>) -> (b: bool)
    ensures
        b == forall|i: int|
            0 <= i < files@.len() ==> expansion_terminates(
                char_views(files@),
                #[trigger] files@[i].0@,
            ),
{
    let ghost fv = char_views(files@);
    let n = files.len();
    // What each line of each file asks.
    let mut deps: Vec<Vec<LineDep>> = Vec::new();
    let mut i: usize = 0;
    while i < n
        invariant
            i <= n,
            n == files@.len(),
            fv == char_views(files@),
            deps@.len() == i,
            forall|p: int|
                0 <= p < i ==> (#[trigger] deps@[p])@.len() == lines(fv[p].1).len() && forall|
                    k: int,
                | 0 <= k < deps@[p]@.len() ==> dep_describes(
                    fv,
                    lines(fv[p].1)[k],
                    #[trigger] deps@[p]@[k],
                ),
        decreases n - i,
    {
        let ls = split_lines(&files[i].1);
        assert(fv[i as int].1 == files@[i as int].1@);
        let mut row: Vec<LineDep> = Vec::new();
        let mut k: usize = 0;
        while k < ls.len()
            invariant
                i < n,
                n == files@.len(),
                fv == char_views(files@),
                k <= ls@.len(),
                line_views(ls@) == lines(fv[i as int].1),
                row@.len() == k,
                forall|q: int|
                    0 <= q < k ==> dep_describes(fv, lines(fv[i as int].1)[q], #[trigger] row@[q]),
            decreases ls@.len() - k,
        {
            assert(line_views(ls@)[k as int] == ls@[k as int]@);
            let d = line_dep(files, &ls[k]);
            row.push(d);
            k = k + 1;
        }
        deps.push(row);
        i = i + 1;
    }
    // The first file of each name: the one whose code an expansion uses.
    let mut firsts: Vec<usize> = Vec::new();
    let mut i: usize = 0;
    while i < n
        invariant
            i <= n,
            n == files@.len(),
            fv == char_views(files@),
            firsts@.len() == i,
            forall|p: int|
                0 <= p < i ==> #[trigger] firsts@[p] < n && lookup(fv, fv[p].0) == Some(
                    fv[firsts@[p] as int].1,
                ),
        decreases n - i,
    {
        assert(fv[i as int].0 == files@[i as int].0@);
        match find_file(files, &files[i].0) {
            Some(j) => {
                firsts.push(j);
            },
            None => {
                proof {
                    assert(fv[i as int].0 == files@[i as int].0@);
                    lemma_lookup_some(fv, i as int);
                }
                firsts.push(0);
            },
        }
        i = i + 1;
    }
    // Which files expand within `fuel`, for fuel = 0, 1, 2, ... until no
    // more files do.
    let mut g: Vec<bool> = Vec::new();
    let mut i: usize = 0;
    while i < n
        invariant
            i <= n,
            g@.len() == i,
            forall|p: int| 0 <= p < i ==> !#[trigger] g@[p],
        decreases n - i,
    {
        g.push(false);
        i = i + 1;
    }
    let ghost mut fuel: nat = 0;
    assert(g@ =~= expands_within(fv, 0));
    let mut started: bool = false;
    loop
        invariant
            n == files@.len(),
            fv == char_views(files@),
            g@ == expands_within(fv, fuel),
            started == (fuel >= 1),
            deps@.len() == n,
            firsts@.len() == n,
            forall|p: int|
                0 <= p < n ==> (#[trigger] deps@[p])@.len() == lines(fv[p].1).len() && forall|
                    k: int,
                | 0 <= k < deps@[p]@.len() ==> dep_describes(
                    fv,
                    lines(fv[p].1)[k],
                    #[trigger] deps@[p]@[k],
                ),
            forall|p: int|
                0 <= p < n ==> #[trigger] firsts@[p] < n && lookup(fv, fv[p].0) == Some(
                    fv[firsts@[p] as int].1,
                ),
        ensures
            fuel >= 1,
            g@ == expands_within(fv, fuel),
            expands_within(fv, fuel + 1) == expands_within(fv, fuel),
        decreases n - count_true(g@), if started {
            0int
        } else {
            1int
        },
    {
        let mut next: Vec<bool> = Vec::new();
        let mut i: usize = 0;
        while i < n
            invariant
                i <= n,
                n == files@.len(),
                fv == char_views(files@),
                g@ == expands_within(fv, fuel),
                started == (fuel >= 1),
                deps@.len() == n,
                firsts@.len() == n,
                forall|p: int|
                    0 <= p < n ==> (#[trigger] deps@[p])@.len() == lines(fv[p].1).len() && forall|
                        k: int,
                    | 0 <= k < deps@[p]@.len() ==> dep_describes(
                        fv,
                        lines(fv[p].1)[k],
                        #[trigger] deps@[p]@[k],
                    ),
                forall|p: int|
                    0 <= p < n ==> #[trigger] firsts@[p] < n && lookup(fv, fv[p].0) == Some(
                        fv[firsts@[p] as int].1,
                    ),
                next@.len() == i,
                forall|p: int| 0 <= p < i ==> #[trigger] next@[p] == expands_within(fv, fuel + 1)[p],
            decreases n - i,
        {
            let f = firsts[i];
            let row = &deps[f];
            let ghost code = fv[f as int].1;
            assert(row@.len() == lines(code).len());
            let mut ok = true;
            let mut k: usize = 0;
            while k < row.len()
                invariant
                    k <= row@.len(),
                    n == fv.len(),
                    g@.len() == n,
                    row@.len() == lines(code).len(),
                    forall|q: int|
                        0 <= q < row@.len() ==> dep_describes(
                            fv,
                            lines(code)[q],
                            #[trigger] row@[q],
                        ),
                    g@ == expands_within(fv, fuel),
                    started == (fuel >= 1),
                    ok == forall|q: int|
                        0 <= q < k ==> dep_ok(#[trigger] row@[q], expands_within(fv, fuel), fuel),
                decreases row@.len() - k,
            {
                let d = row[k];
                let here = match d {
                    LineDep::Plain => true,
                    LineDep::Unsliceable => false,
                    LineDep::Missing => started,
                    LineDep::File(j) => {
                        assert(dep_describes(fv, lines(code)[k as int], row@[k as int]));
                        g[j]
                    },
                };
                ok = ok && here;
                k = k + 1;
            }
            proof {
                lemma_expand_step(fv, fv[i as int].0, fuel);
                assert forall|q: int| 0 <= q < lines(code).len() implies line_expands(
                    fv,
                    #[trigger] lines(code)[q],
                    fuel,
                ) == dep_ok(row@[q], expands_within(fv, fuel), fuel) by {
                    lemma_dep_ok(fv, lines(code)[q], row@[q], fuel);
                }
            }
            next.push(ok);
            i = i + 1;
        }
        proof {
            assert(next@ =~= expands_within(fv, fuel + 1));
            assert forall|p: int| 0 <= p < n && #[trigger] g@[p] implies next@[p] by {
                lemma_expand_fuel_step(fv, fv[p].0, fuel);
            }
            lemma_count_grows(g@, next@);
        }
        let same = bools_eq(&g, &next);
        if started && same {
            break;
        }
        g = next;
        started = true;
        proof {
            fuel = fuel + 1;
        }
    }
    // Every file expands within `fuel` exactly when every file's expansion
    // comes to an end.
    let mut all = true;
    let mut i: usize = 0;
    while i < n
        invariant
            i <= n,
            n == files@.len(),
            fv == char_views(files@),
            fuel >= 1,
            g@ == expands_within(fv, fuel),
            expands_within(fv, fuel + 1) == expands_within(fv, fuel),
            all == forall|p: int| 0 <= p < i ==> #[trigger] g@[p],
        decreases n - i,
    {
        all = all && g[i];
        i = i + 1;
    }
    proof {
        assert forall|p: int| 0 <= p < n implies #[trigger] g@[p] == expansion_terminates(
            fv,
            fv[p].0,
        ) by {
            if expansion_terminates(fv, fv[p].0) {
                let f = choose|f: nat| #[trigger] expand(fv, fv[p].0, f) is Some;
                if f <= fuel {
                    lemma_expand_fuel_mono(fv, fv[p].0, f, fuel);
                } else {
                    lemma_stable(fv, fuel, (f - fuel) as nat);
                    assert(expands_within(fv, f)[p] == expands_within(fv, fuel)[p]);
                }
            }
            if g@[p] {
                assert(expand(fv, fv[p].0, fuel) is Some);
            }
        }
        assert forall|p: int| 0 <= p < n implies expansion_terminates(
            char_views(files@),
            #[trigger] files@[p].0@,
        ) == g@[p] by {
            assert(fv[p].0 == files@[p].0@);
        }
    }
    all
}

} // verus!
