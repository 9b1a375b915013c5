use vstd::prelude::*;

verus! {

/// The character sequences held by a vector of character vectors.
pub open spec fn views(v: Seq<Vec<char>>) -> Seq<Seq<char>> {
    v.map_values(|t: Vec<char>| t@)
}

/// Unicode `White_Space`, the characters that `char::is_whitespace` accepts.
pub open spec fn is_white_space(c: char) -> bool {
    let u = c as u32;
    ||| 0x09 <= u <= 0x0D
    ||| u == 0x20
    ||| u == 0x85
    ||| u == 0xA0
    ||| u == 0x1680
    ||| 0x2000 <= u <= 0x200A
    ||| u == 0x2028
    ||| u == 0x2029
    ||| u == 0x202F
    ||| u == 0x205F
    ||| u == 0x3000
}

pub fn is_white_space_char(c: char) -> (b: bool)
    ensures
        b == is_white_space(c),
{
    let u = c as u32;
    (0x09 <= u && u <= 0x0D) || u == 0x20 || u == 0x85 || u == 0xA0 || u == 0x1680 || (0x2000
        <= u && u <= 0x200A) || u == 0x2028 || u == 0x2029 || u == 0x202F || u == 0x205F || u
        == 0x3000
}

/// The maximal runs of non-white-space characters of `s`, in order, as
/// `str::split_whitespace` yields them.
pub open spec fn ws_tokens(s: Seq<char>) -> Seq<Seq<char>>
    decreases s.len(),
{
    if s.len() == 0 {
        Seq::empty()
    } else {
        let earlier = ws_tokens(s.drop_last());
        let c = s.last();
        if is_white_space(c) {
            earlier
        } else if s.len() >= 2 && !is_white_space(s[s.len() - 2]) {
            earlier.update(earlier.len() - 1, earlier.last().push(c))
        } else {
            earlier.push(seq![c])
        }
    }
}

/// The pieces of `s` between occurrences of `sep`, as `str::split` yields
/// them for a single-character pattern: one more piece than separators.
pub open spec fn split_pieces(s: Seq<char>, sep: char) -> Seq<Seq<char>>
    decreases s.len(),
{
    if s.len() == 0 {
        seq![Seq::empty()]
    } else {
        let earlier = split_pieces(s.drop_last(), sep);
        if s.last() == sep {
            earlier.push(Seq::empty())
        } else {
            earlier.update(earlier.len() - 1, earlier.last().push(s.last()))
        }
    }
}

pub open spec fn is_ascii_digit(c: char) -> bool {
    '0' <= c && c <= '9'
}

/// Value of a string of decimal digits.
pub open spec fn digits_value(s: Seq<char>) -> int
    decreases s.len(),
{
    if s.len() == 0 {
        0
    } else {
        digits_value(s.drop_last()) * 10 + (s.last() as int - '0' as int)
    }
}

/// Every character of `s` is an ASCII digit.
pub open spec fn all_digits(s: Seq<char>) -> bool {
    forall|i: int| 0 <= i < s.len() ==> is_ascii_digit(#[trigger] s[i])
}

/// `s` without its leading sign character, if it has one.
pub open spec fn unsigned_part(s: Seq<char>) -> Seq<char> {
    if s.len() > 0 && (s[0] == '-' || s[0] == '+') {
        s.drop_first()
    } else {
        s
    }
}

/// What `str::parse::<i32>` gives: an optional `+` or `-` followed by at
/// least one ASCII digit, and nothing else, whose value fits `i32`.
pub open spec fn parse_i32_spec(s: Seq<char>) -> Option<i32> {
    let body = unsigned_part(s);
    let v = if s.len() > 0 && s[0] == '-' {
        -digits_value(body)
    } else {
        digits_value(body)
    };
    if body.len() == 0 || !all_digits(body) {
        None
    } else if i32::MIN <= v <= i32::MAX {
        Some(v as i32)
    } else {
        None
    }
}

proof fn lemma_ws_tokens_nonempty(s: Seq<char>)
    ensures
        s.len() > 0 && !is_white_space(s.last()) ==> ws_tokens(s).len() > 0,
    decreases s.len(),
{
    if s.len() > 0 {
        lemma_ws_tokens_nonempty(s.drop_last());
    }
}

pub proof fn lemma_split_pieces_nonempty(s: Seq<char>, sep: char)
    ensures
        split_pieces(s, sep).len() >= 1,
    decreases s.len(),
{
    if s.len() > 0 {
        lemma_split_pieces_nonempty(s.drop_last(), sep);
    }
}

/// The white-space separated tokens of `line`.
pub fn split_whitespace(line: &Vec<char>) -> (tokens: Vec<Vec<char>>)
    ensures
        views(tokens@) == ws_tokens(line@),
{
    let mut tokens: Vec<Vec<char>> = Vec::new();
    let mut i: usize = 0;
    while i < line.len()
        invariant
            i <= line@.len(),
            views(tokens@) == ws_tokens(line@.take(i as int)),
        decreases line@.len() - i,
    {
        let c = line[i];
        let ghost prefix = line@.take(i as int);
        proof {
            assert(line@.take(i + 1).drop_last() =~= prefix);
            assert(line@.take(i + 1).last() == c);
            lemma_ws_tokens_nonempty(prefix);
        }
        if !is_white_space_char(c) {
            if i > 0 && !is_white_space_char(line[i - 1]) {
                assert(prefix.last() == line@[i - 1]);
                let mut last = tokens.pop().unwrap();
                last.push(c);
                tokens.push(last);
            } else {
                let mut piece: Vec<char> = Vec::new();
                piece.push(c);
                tokens.push(piece);
            }
        }
        proof {
            assert(views(tokens@) =~= ws_tokens(line@.take(i + 1)));
        }
        i = i + 1;
    }
    proof {
        assert(line@.take(line@.len() as int) =~= line@);
    }
    tokens
}

/// The pieces of `s` between occurrences of `sep`.
pub fn split_on(s: &Vec<char>, sep: char) -> (pieces: Vec<Vec<char>>)
    ensures
        views(pieces@) == split_pieces(s@, sep),
{
    let mut pieces: Vec<Vec<char>> = Vec::new();
    pieces.push(Vec::new());
    proof {
        assert(views(pieces@) =~= split_pieces(s@.take(0), sep));
    }
    let mut i: usize = 0;
    while i < s.len()
        invariant
            i <= s@.len(),
            views(pieces@) == split_pieces(s@.take(i as int), sep),
        decreases s@.len() - i,
    {
        let c = s[i];
        let ghost prefix = s@.take(i as int);
        proof {
            assert(s@.take(i + 1).drop_last() =~= prefix);
            assert(s@.take(i + 1).last() == c);
            lemma_split_pieces_nonempty(prefix, sep);
        }
        if c == sep {
            pieces.push(Vec::new());
        } else {
            let mut last = pieces.pop().unwrap();
            last.push(c);
            pieces.push(last);
        }
        proof {
            assert(views(pieces@) =~= split_pieces(s@.take(i + 1), sep));
        }
        i = i + 1;
    }
    proof {
        assert(s@.take(s@.len() as int) =~= s@);
    }
    pieces
}

/// Parses a decimal `i32` the way `str::parse::<i32>` does.
pub fn parse_i32(s: &Vec<char>) -> (r: Option<i32>)
    ensures
        r == parse_i32_spec(s@),
{
    if s.len() == 0 {
        return None;
    }
    let negative = s[0] == '-';
    let start: usize = if s[0] == '-' || s[0] == '+' {
        1
    } else {
        0
    };
    let ghost body = unsigned_part(s@);
    proof {
        assert(body =~= s@.subrange(start as int, s@.len() as int));
    }
    if start == s.len() {
        return None;
    }
    // Values above `i32::MAX + 1` are all out of range; they are kept at
    // one past that bound.
    let cap: i64 = 2147483649;
    let mut acc: i64 = 0;
    let mut i: usize = start;
    while i < s.len()
        invariant
            start <= i <= s@.len(),
            start <= 1,
            body =~= s@.subrange(start as int, s@.len() as int),
            s@.len() > 0,
            body == unsigned_part(s@),
            negative == (s@[0] == '-'),
            cap == 2147483649,
            0 <= acc <= cap,
            forall|j: int| start <= j < i ==> is_ascii_digit(#[trigger] s@[j]),
            acc == (if digits_value(body.take(i - start)) < cap {
                digits_value(body.take(i - start))
            } else {
                cap as int
            }),
            digits_value(body.take(i - start)) >= 0,
        decreases s@.len() - i,
    {
        let c = s[i];
        let ghost prefix = body.take(i - start);
        proof {
            assert(body.take(i - start + 1).drop_last() =~= prefix);
            assert(body.take(i - start + 1).last() == c);
        }
        if !('0' <= c && c <= '9') {
            proof {
                assert(body[i - start] == c);
                assert(!is_ascii_digit(body[i - start]));
            }
            return None;
        }
        let d: i64 = (c as u32 - '0' as u32) as i64;
        let next: i64 = acc * 10 + d;
        proof {
            assert(digits_value(body.take(i - start + 1)) == digits_value(prefix) * 10 + d);
            if digits_value(prefix) >= cap {
                assert(digits_value(prefix) * 10 + d >= cap) by (nonlinear_arith)
                    requires digits_value(prefix) >= cap, d >= 0, cap > 0;
                assert(next >= cap) by (nonlinear_arith)
                    requires next == acc * 10 + d, acc == cap, d >= 0, cap > 0;
            }
        }
        acc = if next < cap {
            next
        } else {
            cap
        };
        i = i + 1;
    }
    proof {
        assert(body.take(body.len() as int) =~= body);
        assert forall|j: int| 0 <= j < body.len() implies is_ascii_digit(#[trigger] body[j]) by {
            assert(body[j] == s@[j + start]);
        }
        assert(all_digits(body));
    }
    if negative {
        if acc <= 2147483648 {
            Some((-acc) as i32)
        } else {
            None
        }
    } else {
        if acc <= 2147483647 {
            Some(acc as i32)
        } else {
            None
        }
    }
}

} // verus!
