use vstd::prelude::*;

verus! {

/// Whether `c` has the Unicode White_Space property.
pub open spec fn is_white_space(c: char) -> bool {
    let u = c as u32;
    ||| 0x09 <= u <= 0x0d
    ||| u == 0x20
    ||| u == 0x85
    ||| u == 0xa0
    ||| u == 0x1680
    ||| 0x2000 <= u <= 0x200a
    ||| u == 0x2028
    ||| u == 0x2029
    ||| u == 0x202f
    ||| u == 0x205f
    ||| u == 0x3000
}

/// Whether `c` has the Unicode White_Space property.
pub fn white_space(c: char) -> (r: bool)
    ensures
        r == is_white_space(c),
{
    let u = c as u32;
    (0x09 <= u && u <= 0x0d) || u == 0x20 || u == 0x85 || u == 0xa0 || u == 0x1680 || (0x2000
        <= u && u <= 0x200a) || u == 0x2028 || u == 0x2029 || u == 0x202f || u == 0x205f || u
        == 0x3000
}

/// The words of `s`, the runs of characters between white space, when the
/// word being read so far is `cur`.
pub open spec fn split_words(s: Seq<char>, cur: Seq<char>) -> Seq<Seq<char>>
    decreases s.len(),
{
    if s.len() == 0 {
        if cur.len() > 0 {
            seq![cur]
        } else {
            Seq::empty()
        }
    } else if is_white_space(s[0]) {
        (if cur.len() > 0 {
            seq![cur]
        } else {
            Seq::empty()
        }) + split_words(s.drop_first(), Seq::empty())
    } else {
        split_words(s.drop_first(), cur.push(s[0]))
    }
}

/// The words of `s`: its maximal runs of characters that are not white
/// space, in order.
pub open spec fn words(s: Seq<char>) -> Seq<Seq<char>> {
    split_words(s, Seq::empty())
}

/// Splits `s` into its words.
pub fn split_whitespace(s: &str) -> (r: Vec<String>)
    ensures
        r@.map_values(|w: String| w@) == words(s@),
{
    let n = s.unicode_len();
    let mut r: Vec<String> = Vec::new();
    let mut in_word = false;
    let mut start: usize = 0;
    let mut i: usize = 0;
    assert(s@.skip(0) =~= s@);
    assert(r@.map_values(|w: String| w@) + words(s@) =~= words(s@));
    while i < n
        invariant
            n == s@.len(),
            i <= n,
            start <= i,
            r@.map_values(|w: String| w@) + split_words(
                s@.skip(i as int),
                if in_word {
                    s@.subrange(start as int, i as int)
                } else {
                    Seq::empty()
                },
            ) == words(s@),
            in_word ==> start < i,
        decreases n - i,
    {
        let c = s.get_char(i);
        let ghost done = r@.map_values(|w: String| w@);
        let ghost rest = s@.skip(i as int);
        assert(rest[0] == c);
        assert(rest.drop_first() =~= s@.skip(i as int + 1));
        if white_space(c) {
            if in_word {
                let w = String::from_str(s.substring_char(start, i));
                r.push(w);
                assert(r@.map_values(|w: String| w@) =~= done + seq![
                    s@.subrange(start as int, i as int),
                ]);
            }
            in_word = false;
        } else {
            if !in_word {
                start = i;
                in_word = true;
                assert(Seq::<char>::empty().push(c) =~= s@.subrange(i as int, i as int + 1));
            } else {
                assert(s@.subrange(start as int, i as int).push(c) =~= s@.subrange(
                    start as int,
                    i as int + 1,
                ));
            }
        }
        i = i + 1;
    }
    assert(s@.skip(n as int) =~= Seq::<char>::empty());
    if in_word {
        let ghost done = r@.map_values(|w: String| w@);
        let w = String::from_str(s.substring_char(start, n));
        r.push(w);
        assert(r@.map_values(|w: String| w@) =~= done + seq![
            s@.subrange(start as int, n as int),
        ]);
    } else {
        assert(r@.map_values(|w: String| w@) =~= r@.map_values(|w: String| w@) + Seq::<
            Seq<char>,
        >::empty());
    }
    r
}

/// Whether `s` holds the arrow `->` that marks a renamed or copied path.
pub open spec fn has_arrow(s: Seq<char>) -> bool {
    exists|i: int| 0 <= i && i + 1 < s.len() && s[i] == '-' && #[trigger] s[i + 1] == '>'
}

/// Whether `s` holds the arrow `->`.
pub fn contains_arrow(s: &str) -> (r: bool)
    ensures
        r == has_arrow(s@),
{
    let n = s.unicode_len();
    if n == 0 {
        return false;
    }
    let mut i: usize = 0;
    while i < n - 1
        invariant
            n == s@.len(),
            n > 0,
            i <= n - 1,
            forall|k: int| 0 <= k < i && k + 1 < n ==> !(s@[k] == '-' && #[trigger] s@[k + 1] == '>'),
        decreases n - i,
    {
        if s.get_char(i) == '-' && s.get_char(i + 1) == '>' {
            return true;
        }
        i = i + 1;
    }
    false
}

/// The number of bytes `c` takes in UTF-8.
pub open spec fn utf8_len(c: char) -> int {
    let u = c as u32;
    if u < 0x80 {
        1
    } else if u < 0x800 {
        2
    } else if u < 0x10000 {
        3
    } else {
        4
    }
}

/// The number of bytes `c` takes in UTF-8.
pub fn char_utf8_len(c: char) -> (r: usize)
    ensures
        r == utf8_len(c),
{
    let u = c as u32;
    if u < 0x80 {
        1
    } else if u < 0x800 {
        2
    } else if u < 0x10000 {
        3
    } else {
        4
    }
}

/// The characters of `s` after its first `n` bytes in UTF-8; `None` where
/// `s` is shorter than `n` bytes or byte `n` falls inside a character.
pub open spec fn skip_bytes(s: Seq<char>, n: int) -> Option<Seq<char>>
    decreases s.len(),
{
    if n == 0 {
        Some(s)
    } else if n < 0 || s.len() == 0 {
        None
    } else {
        skip_bytes(s.drop_first(), n - utf8_len(s[0]))
    }
}

/// The text after the first three bytes of a status line (the two status
/// letters and the space), where byte three starts a character.
pub fn status_rest(s: &str) -> (r: Option<&str>)
    ensures
        r is Some <==> skip_bytes(s@, 3) is Some,
        r is Some ==> r->0@ == skip_bytes(s@, 3)->0,
{
    let n = s.unicode_len();
    let mut i: usize = 0;
    let mut b: usize = 0;
    assert(s@.skip(0) =~= s@);
    while b < 3 && i < n
        invariant
            n == s@.len(),
            i <= n,
            b <= 6,
            skip_bytes(s@, 3) == skip_bytes(s@.skip(i as int), 3 - b),
        decreases n - i,
    {
        let c = s.get_char(i);
        assert(s@.skip(i as int)[0] == c);
        assert(s@.skip(i as int).drop_first() =~= s@.skip(i as int + 1));
        b = b + char_utf8_len(c);
        i = i + 1;
    }
    if b == 3 {
        let rest = s.substring_char(i, n);
        assert(rest@ =~= s@.skip(i as int));
        Some(rest)
    } else {
        assert(s@.skip(i as int).len() == 0 || 3 - b < 0);
        None
    }
}

/// The path of one line of short status output, written from the root of
/// the repository (`:/` and the path): the text after the first three bytes
/// (the two status letters and the space), or, for a rename or copy
/// (`old -> new`), the third word of that text. None where a rename has no
/// third word.
pub open spec fn path_of(status: Seq<char>) -> Option<Seq<char>> {
    let rest = skip_bytes(status, 3)->0;
    if has_arrow(rest) {
        let w = words(rest);
        if w.len() > 2 {
            Some(seq![':', '/'] + w[2])
        } else {
            None
        }
    } else {
        Some(seq![':', '/'] + rest)
    }
}

/// The path of one line of short status output; see `path_of`.
pub fn status_to_path(status: &String) -> (r: Option<String>)
    requires
        skip_bytes(status@, 3) is Some,
    ensures
        r is Some <==> path_of(status@) is Some,
        r is Some ==> r->0@ == path_of(status@)->0,
{
    let rest = match status_rest(status.as_str()) {
        Some(rest) => rest,
        None => {
            return None;
        },
    };
    let path: &str;
    let w: Vec<String>;
    if contains_arrow(rest) {
        w = split_whitespace(rest);
        if w.len() <= 2 {
            return None;
        }
        assert(w@[2]@ == words(rest@)[2]);
        path = w[2].as_str();
    } else {
        path = rest;
    }
    let root = ":/";
    proof {
        reveal_strlit(":/");
    }
    let mut p = String::from_str(root);
    p.append(path);
    assert(p@ =~= path_of(status@)->0);
    Some(p)
}

/// The paths of the lines of short status output, each written from the root
/// of the repository; an error where one of them is a rename without a
/// target.
pub fn marshal_statuses_into_paths(statuses: Vec<String>) -> (r: Result<Vec<String>, &'static str>)
    requires
        forall|i: int| 0 <= i < statuses@.len() ==> skip_bytes((#[trigger] statuses@[i])@, 3) is Some,
    ensures
        match r {
            Ok(v) => {
                &&& forall|i: int|
                    0 <= i < statuses@.len() ==> (#[trigger] path_of(statuses@[i]@)) is Some
                &&& v@.len() == statuses@.len()
                &&& forall|i: int|
                    0 <= i < v@.len() ==> (#[trigger] v@[i])@ == path_of(statuses@[i]@)->0
            },
            Err(e) => {
                &&& exists|i: int|
                    0 <= i < statuses@.len() && (#[trigger] path_of(statuses@[i]@)) is None
                &&& e@ == "Failed to parse status"@
            },
        },
{
    let mut v: Vec<String> = Vec::new();
    let mut i: usize = 0;
    while i < statuses.len()
        invariant
            i <= statuses@.len(),
            forall|k: int| 0 <= k < statuses@.len() ==> skip_bytes((#[trigger] statuses@[k])@, 3) is Some,
            v@.len() == i,
            forall|k: int| 0 <= k < i ==> (#[trigger] path_of(statuses@[k]@)) is Some,
            forall|k: int| 0 <= k < i ==> (#[trigger] v@[k])@ == path_of(statuses@[k]@)->0,
        decreases statuses@.len() - i,
    {
        match status_to_path(&statuses[i]) {
            Some(p) => v.push(p),
            None => {
                assert(path_of(statuses@[i as int]@) is None);
                return Err("Failed to parse status");
            },
        }
        i = i + 1;
    }
    Ok(v)
}

} // verus!
