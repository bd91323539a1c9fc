//! The intermediate artifact codec.
//!
//! The extraction backend hands the pipeline one artifact: a JSON object
//! whose fields `title`, `byline`, `date`, `content` and `plain_content`
//! are each a string or absent. This module decodes that object into an
//! [`Article`](crate::article::Article) and encodes an `Article` back into
//! it. The decoder accepts the object form of the schema: arbitrary
//! whitespace, the fields in any order, `null` for an absent field,
//! unknown members with string or `null` values (which are skipped,
//! last value winning on a repeated key), and the JSON string escapes
//! `\" \\ \/ \b \f \n \r \t` and `\uXXXX` with surrogate pairs.
//! Decoding and encoding invert each other: see
//! [`lemma_codec_round_trip`].

use vstd::prelude::*;

use crate::article::Article;
use crate::article::ArticleV;

verus! {

/// Relies on `str::chars`: the characters of the string, in order.
#[verifier::external_body]
fn chars_of(s: &str) -> (r: Vec<char>)
    ensures
        r@ == s@,
{
    s.chars().collect()
}

/// Relies on `String`'s `FromIterator<char>`: collects characters in order.
#[verifier::external_body]
fn string_of_chars(v: &Vec<char>) -> (r: String)
    ensures
        r@ == v@,
{
    v.iter().collect()
}

/// Relies on `char::from_u32`: defined exactly on the Unicode scalar
/// values, the code points outside the surrogate range.
#[verifier::external_body]
fn char_from_code(c: u32) -> (r: Option<char>)
    ensures
        r == (if c < 0xD800 || (0xE000 <= c && c <= 0x10FFFF) {
            Some(c as char)
        } else {
            None::<char>
        }),
{
    char::from_u32(c)
}

/// The JSON whitespace characters.
pub open spec fn is_ws(c: char) -> bool {
    c == ' ' || c == '\n' || c == '\r' || c == '\t'
}

/// Drop leading whitespace.
pub open spec fn skip_ws(s: Seq<char>) -> Seq<char>
    decreases s.len(),
{
    if s.len() > 0 && is_ws(s[0]) {
        skip_ws(s.drop_first())
    } else {
        s
    }
}

/// How one character is written inside an encoded JSON string.
pub open spec fn escape_char(c: char) -> Seq<char> {
    if c == '"' {
        seq!['\\', '"']
    } else if c == '\\' {
        seq!['\\', '\\']
    } else if c == '\n' {
        seq!['\\', 'n']
    } else if c == '\r' {
        seq!['\\', 'r']
    } else if c == '\t' {
        seq!['\\', 't']
    } else if c == '\u{8}' {
        seq!['\\', 'b']
    } else if c == '\u{c}' {
        seq!['\\', 'f']
    } else {
        seq![c]
    }
}

/// The body of an encoded JSON string: every character escaped as needed.
pub open spec fn escape_seq(s: Seq<char>) -> Seq<char>
    decreases s.len(),
{
    if s.len() == 0 {
        Seq::empty()
    } else {
        escape_char(s[0]) + escape_seq(s.drop_first())
    }
}

/// What a two-character escape stands for; `None` for an unknown escape
/// (`u` is handled separately).
pub open spec fn unescape_char(c: char) -> Option<char> {
    if c == '"' {
        Some('"')
    } else if c == '\\' {
        Some('\\')
    } else if c == '/' {
        Some('/')
    } else if c == 'n' {
        Some('\n')
    } else if c == 'r' {
        Some('\r')
    } else if c == 't' {
        Some('\t')
    } else if c == 'b' {
        Some('\u{8}')
    } else if c == 'f' {
        Some('\u{c}')
    } else {
        None
    }
}

/// The value of one hex digit.
pub open spec fn hex_val(c: char) -> Option<int> {
    if '0' <= c && c <= '9' {
        Some(c as int - '0' as int)
    } else if 'a' <= c && c <= 'f' {
        Some(c as int - 'a' as int + 10)
    } else if 'A' <= c && c <= 'F' {
        Some(c as int - 'A' as int + 10)
    } else {
        None
    }
}

/// The value of the four hex digits at the front of `s`.
pub open spec fn hex4(s: Seq<char>) -> Option<int> {
    if s.len() >= 4 && hex_val(s[0]) is Some && hex_val(s[1]) is Some && hex_val(s[2]) is Some
        && hex_val(s[3]) is Some {
        Some(
            hex_val(s[0])->0 * 0x1000 + hex_val(s[1])->0 * 0x100 + hex_val(s[2])->0 * 0x10
                + hex_val(s[3])->0,
        )
    } else {
        None
    }
}

/// A `\uXXXX` escape at the front of `s` (which starts at the `\`): the
/// character it denotes and how many characters it took — six, or twelve
/// for a surrogate pair.
pub open spec fn parse_u_escape(s: Seq<char>) -> Option<(char, int)> {
    if s.len() < 6 || s[0] != '\\' || s[1] != 'u' {
        None
    } else {
        match hex4(s.subrange(2, 6)) {
            None => None,
            Some(cp) => if 0xD800 <= cp && cp < 0xDC00 {
                if s.len() >= 12 && s[6] == '\\' && s[7] == 'u' {
                    match hex4(s.subrange(8, 12)) {
                        None => None,
                        Some(lo) => if 0xDC00 <= lo && lo < 0xE000 {
                            Some(
                                (((0x10000 + (cp - 0xD800) * 0x400 + (lo - 0xDC00)) as char, 12)),
                            )
                        } else {
                            None
                        },
                    }
                } else {
                    None
                }
            } else if 0xDC00 <= cp && cp < 0xE000 {
                None
            } else {
                Some(((cp as char, 6)))
            },
        }
    }
}

/// Parse the body of a JSON string, the opening quote already consumed:
/// the decoded content and what follows the closing quote.
pub open spec fn parse_str_body(s: Seq<char>) -> Option<(Seq<char>, Seq<char>)>
    decreases s.len(),
{
    if s.len() == 0 {
        None
    } else if s[0] == '"' {
        Some((Seq::empty(), s.drop_first()))
    } else if s[0] == '\\' {
        if s.len() < 2 {
            None
        } else if s[1] == 'u' {
            match parse_u_escape(s) {
                None => None,
                Some((c, used)) => if 0 < used <= s.len() {
                    match parse_str_body(s.skip(used)) {
                        None => None,
                        Some((content, rest)) => Some((seq![c] + content, rest)),
                    }
                } else {
                    None
                },
            }
        } else {
            match unescape_char(s[1]) {
                None => None,
                Some(c) => match parse_str_body(s.skip(2)) {
                    None => None,
                    Some((content, rest)) => Some((seq![c] + content, rest)),
                },
            }
        }
    } else {
        match parse_str_body(s.drop_first()) {
            None => None,
            Some((content, rest)) => Some((seq![s[0]] + content, rest)),
        }
    }
}

/// Parse one member value: a string, or `null` for an absent field.
pub open spec fn parse_value(s: Seq<char>) -> Option<(Option<Seq<char>>, Seq<char>)> {
    if s.len() == 0 {
        None
    } else if s[0] == '"' {
        match parse_str_body(s.drop_first()) {
            None => None,
            Some((content, rest)) => Some((Some(content), rest)),
        }
    } else if s.len() >= 4 && s[0] == 'n' && s[1] == 'u' && s[2] == 'l' && s[3] == 'l' {
        Some((None, s.skip(4)))
    } else {
        None
    }
}

/// The characters a scalar member value may consist of: digits, sign,
/// exponent and decimal characters, and letters for the keyword
/// literals.
pub open spec fn is_scalar_char(c: char) -> bool {
    ('0' <= c && c <= '9') || ('a' <= c && c <= 'z') || ('A' <= c && c <= 'Z') || c == '-' || c
        == '+' || c == '.'
}

/// Drop a leading run of scalar characters.
pub open spec fn consume_scalars(s: Seq<char>) -> Seq<char>
    decreases s.len(),
{
    if s.len() > 0 && is_scalar_char(s[0]) {
        consume_scalars(s.drop_first())
    } else {
        s
    }
}

/// Skip one scalar member value — a number or a keyword literal.
pub open spec fn skip_scalar(s: Seq<char>) -> Option<Seq<char>> {
    if s.len() > 0 && is_scalar_char(s[0]) {
        Some(consume_scalars(s))
    } else {
        None
    }
}

/// How deeply a skipped unknown member value may nest.
pub open spec fn skip_depth_limit() -> int {
    128
}

/// Skip one JSON value of an unknown member — a string, a scalar, an
/// array or an object, nested at most `depth` levels — and give back
/// what follows it.
pub open spec fn skip_value(s: Seq<char>, depth: int) -> Option<Seq<char>>
    decreases depth, s.len(), 0int,
{
    if s.len() == 0 {
        None
    } else if s[0] == '"' {
        match parse_str_body(s.drop_first()) {
            None => None,
            Some((_, rest)) => Some(rest),
        }
    } else if s[0] == '[' {
        if depth <= 0 {
            None
        } else {
            let s1 = skip_ws(s.drop_first());
            if s1.len() > 0 && s1[0] == ']' {
                Some(s1.drop_first())
            } else if s1.len() < s.len() {
                skip_array_items(s1, depth - 1)
            } else {
                None
            }
        }
    } else if s[0] == '{' {
        if depth <= 0 {
            None
        } else {
            let s1 = skip_ws(s.drop_first());
            if s1.len() > 0 && s1[0] == '}' {
                Some(s1.drop_first())
            } else if s1.len() < s.len() {
                skip_object_members(s1, depth - 1)
            } else {
                None
            }
        }
    } else {
        skip_scalar(s)
    }
}

/// Skip the items of an array being skipped, starting at the first
/// item, through the closing bracket.
pub open spec fn skip_array_items(s: Seq<char>, depth: int) -> Option<Seq<char>>
    decreases depth, s.len(), 1int,
{
    match skip_value(s, depth) {
        None => None,
        Some(rest) => {
            let s2 = skip_ws(rest);
            if s2.len() == 0 {
                None
            } else if s2[0] == ']' {
                Some(s2.drop_first())
            } else if s2[0] == ',' {
                let s3 = skip_ws(s2.drop_first());
                if s3.len() < s.len() {
                    skip_array_items(s3, depth)
                } else {
                    None
                }
            } else {
                None
            }
        },
    }
}

/// Skip the members of an object being skipped, starting at the first
/// member's name, through the closing brace.
pub open spec fn skip_object_members(s: Seq<char>, depth: int) -> Option<Seq<char>>
    decreases depth, s.len(), 1int,
{
    if s.len() == 0 || s[0] != '"' {
        None
    } else {
        match parse_str_body(s.drop_first()) {
            None => None,
            Some((_, r1)) => {
                let s2 = skip_ws(r1);
                if s2.len() == 0 || s2[0] != ':' {
                    None
                } else {
                    let s3 = skip_ws(s2.drop_first());
                    if s3.len() >= s.len() {
                        None
                    } else {
                        match skip_value(s3, depth) {
                            None => None,
                            Some(r2) => {
                                let s4 = skip_ws(r2);
                                if s4.len() == 0 {
                                    None
                                } else if s4[0] == '}' {
                                    Some(s4.drop_first())
                                } else if s4[0] == ',' {
                                    let s5 = skip_ws(s4.drop_first());
                                    if s5.len() < s.len() {
                                        skip_object_members(s5, depth)
                                    } else {
                                        None
                                    }
                                } else {
                                    None
                                }
                            },
                        }
                    }
                }
            },
        }
    }
}

/// The five member names of the artifact schema.
pub open spec fn key_title() -> Seq<char> {
    seq!['t', 'i', 't', 'l', 'e']
}

pub open spec fn key_byline() -> Seq<char> {
    seq!['b', 'y', 'l', 'i', 'n', 'e']
}

pub open spec fn key_date() -> Seq<char> {
    seq!['d', 'a', 't', 'e']
}

pub open spec fn key_content() -> Seq<char> {
    seq!['c', 'o', 'n', 't', 'e', 'n', 't']
}

pub open spec fn key_plain_content() -> Seq<char> {
    seq!['p', 'l', 'a', 'i', 'n', '_', 'c', 'o', 'n', 't', 'e', 'n', 't']
}

/// Whether a member name belongs to the artifact schema.
pub open spec fn is_known_key(key: Seq<char>) -> bool {
    key == key_title() || key == key_byline() || key == key_date() || key == key_content() || key
        == key_plain_content()
}

/// An article with every field absent: what decoding starts from.
pub open spec fn empty_article_v() -> ArticleV {
    ArticleV { title: None, byline: None, date: None, content: None, plain_content: None }
}

/// Store one decoded member into the article; an unknown member is
/// skipped.
pub open spec fn set_field(a: ArticleV, key: Seq<char>, v: Option<Seq<char>>) -> ArticleV {
    if key == key_title() {
        ArticleV {
            title: v,
            byline: a.byline,
            date: a.date,
            content: a.content,
            plain_content: a.plain_content,
        }
    } else if key == key_byline() {
        ArticleV {
            title: a.title,
            byline: v,
            date: a.date,
            content: a.content,
            plain_content: a.plain_content,
        }
    } else if key == key_date() {
        ArticleV {
            title: a.title,
            byline: a.byline,
            date: v,
            content: a.content,
            plain_content: a.plain_content,
        }
    } else if key == key_content() {
        ArticleV {
            title: a.title,
            byline: a.byline,
            date: a.date,
            content: v,
            plain_content: a.plain_content,
        }
    } else if key == key_plain_content() {
        ArticleV {
            title: a.title,
            byline: a.byline,
            date: a.date,
            content: a.content,
            plain_content: v,
        }
    } else {
        a
    }
}

/// Parse the members of the artifact object, starting right after `{` or
/// after a `,`, folding each member into the article; ends at the
/// closing `}` with what follows it.
pub open spec fn parse_members(s: Seq<char>, a: ArticleV) -> Option<(ArticleV, Seq<char>)>
    decreases s.len(),
{
    let s1 = skip_ws(s);
    if s1.len() == 0 || s1[0] != '"' {
        None
    } else {
        match parse_str_body(s1.drop_first()) {
            None => None,
            Some((key, s2)) => {
                let s3 = skip_ws(s2);
                if s3.len() == 0 || s3[0] != ':' {
                    None
                } else if is_known_key(key) {
                    match parse_value(skip_ws(s3.drop_first())) {
                        None => None,
                        Some((v, s4)) => {
                            let a2 = set_field(a, key, v);
                            let s5 = skip_ws(s4);
                            if s5.len() == 0 {
                                None
                            } else if s5[0] == '}' {
                                Some((a2, s5.drop_first()))
                            } else if s5[0] == ',' && s5.drop_first().len() < s.len() {
                                parse_members(s5.drop_first(), a2)
                            } else {
                                None
                            }
                        },
                    }
                } else {
                    match skip_value(skip_ws(s3.drop_first()), skip_depth_limit()) {
                        None => None,
                        Some(s4) => {
                            let s5 = skip_ws(s4);
                            if s5.len() == 0 {
                                None
                            } else if s5[0] == '}' {
                                Some((a, s5.drop_first()))
                            } else if s5[0] == ',' && s5.drop_first().len() < s.len() {
                                parse_members(s5.drop_first(), a)
                            } else {
                                None
                            }
                        },
                    }
                }
            },
        }
    }
}

/// What a sequence of characters decodes to: the article, or `None`
/// where the text is not an artifact object.
pub open spec fn decode_spec(s: Seq<char>) -> Option<ArticleV> {
    let s1 = skip_ws(s);
    if s1.len() == 0 || s1[0] != '{' {
        None
    } else {
        let s2 = skip_ws(s1.drop_first());
        if s2.len() > 0 && s2[0] == '}' {
            if skip_ws(s2.drop_first()).len() == 0 {
                Some(empty_article_v())
            } else {
                None
            }
        } else {
            match parse_members(s1.drop_first(), empty_article_v()) {
                None => None,
                Some((a, rest)) => if skip_ws(rest).len() == 0 {
                    Some(a)
                } else {
                    None
                },
            }
        }
    }
}

/// One encoded member value: `null`, or the escaped string in quotes.
pub open spec fn enc_value(v: Option<Seq<char>>) -> Seq<char> {
    match v {
        None => seq!['n', 'u', 'l', 'l'],
        Some(s) => seq!['"'] + escape_seq(s) + seq!['"'],
    }
}

/// One encoded member: the quoted name, a colon, the value.
pub open spec fn member_seq(key: Seq<char>, v: Option<Seq<char>>) -> Seq<char> {
    seq!['"'] + key + seq!['"', ':'] + enc_value(v)
}

/// What an article encodes to: one object holding all five members in
/// schema order, absent fields written as `null`, no whitespace.
pub open spec fn encode_spec(a: ArticleV) -> Seq<char> {
    seq!['{'] + member_seq(key_title(), a.title) + seq![','] + member_seq(key_byline(), a.byline)
        + seq![','] + member_seq(key_date(), a.date) + seq![','] + member_seq(
        key_content(),
        a.content,
    ) + seq![','] + member_seq(key_plain_content(), a.plain_content) + seq!['}']
}

/// The characters the encoder writes behind a backslash.
pub open spec fn is_special_char(c: char) -> bool {
    c == '"' || c == '\\' || c == '\n' || c == '\r' || c == '\t' || c == '\u{8}' || c == '\u{c}'
}

/// Escaping distributes over appending one character.
proof fn lemma_escape_snoc(s: Seq<char>, c: char)
    ensures
        escape_seq(s.push(c)) == escape_seq(s) + escape_char(c),
    decreases s.len(),
{
    if s.len() == 0 {
        assert(s.push(c)[0] == c);
        assert(s.push(c).drop_first() =~= Seq::<char>::empty());
        assert(escape_seq(s.push(c).drop_first()) =~= Seq::<char>::empty());
        assert(escape_seq(s.push(c)) =~= escape_char(c));
        assert(escape_seq(s) + escape_char(c) =~= escape_char(c));
    } else {
        lemma_escape_snoc(s.drop_first(), c);
        assert(s.push(c).drop_first() =~= s.drop_first().push(c));
        assert(s.push(c)[0] == s[0]);
        assert(escape_seq(s.push(c)) =~= escape_seq(s) + escape_char(c));
    }
}

/// A sequence without special characters escapes to itself.
proof fn lemma_escape_plain(s: Seq<char>)
    requires
        forall|i: int| 0 <= i < s.len() ==> !is_special_char(#[trigger] s[i]),
    ensures
        escape_seq(s) == s,
    decreases s.len(),
{
    if s.len() == 0 {
        assert(escape_seq(s) =~= s);
    } else {
        assert forall|i: int| 0 <= i < s.drop_first().len() implies !is_special_char(
            #[trigger] s.drop_first()[i],
        ) by {
            assert(s.drop_first()[i] == s[i + 1]);
        }
        lemma_escape_plain(s.drop_first());
        assert(!is_special_char(s[0]));
        assert(escape_char(s[0]) == seq![s[0]]);
        assert(escape_seq(s) =~= s);
    }
}

/// Decoding a string body inverts escaping: the escaped content followed
/// by the closing quote parses back to the content, leaving the rest.
pub proof fn lemma_parse_escaped(s: Seq<char>, rest: Seq<char>)
    ensures
        parse_str_body(escape_seq(s) + seq!['"'] + rest) == Some((s, rest)),
    decreases s.len(),
{
    let input = escape_seq(s) + seq!['"'] + rest;
    if s.len() == 0 {
        assert(input =~= seq!['"'] + rest);
        assert(input[0] == '"');
        assert(input.drop_first() =~= rest);
        assert(s =~= Seq::<char>::empty());
    } else {
        let c = s[0];
        let tail = s.drop_first();
        lemma_parse_escaped(tail, rest);
        let sub = escape_seq(tail) + seq!['"'] + rest;
        assert(escape_seq(s) == escape_char(c) + escape_seq(tail));
        let ec = escape_char(c);
        assert(seq![c] + tail =~= s);
        if ec.len() == 2 {
            assert(input =~= ec + sub);
            assert(input[0] == '\\');
            assert(input[1] == ec[1]);
            assert(ec[1] != 'u');
            assert(unescape_char(ec[1]) == Some(c));
            assert(input.skip(2) =~= sub);
        } else {
            assert(ec =~= seq![c]);
            assert(c != '"' && c != '\\');
            assert(input =~= seq![c] + sub);
            assert(input[0] == c);
            assert(input.drop_first() =~= sub);
        }
    }
}

/// Decoding a member value inverts encoding it.
proof fn lemma_parse_value(v: Option<Seq<char>>, rest: Seq<char>)
    ensures
        parse_value(enc_value(v) + rest) == Some((v, rest)),
{
    let input = enc_value(v) + rest;
    match v {
        None => {
            assert(input =~= seq!['n', 'u', 'l', 'l'] + rest);
            assert(input[0] == 'n' && input[1] == 'u' && input[2] == 'l' && input[3] == 'l');
            assert(input[0] != '"');
            assert(input.skip(4) =~= rest);
        },
        Some(s) => {
            assert(input =~= seq!['"'] + (escape_seq(s) + seq!['"'] + rest));
            assert(input[0] == '"');
            assert(input.drop_first() =~= escape_seq(s) + seq!['"'] + rest);
            lemma_parse_escaped(s, rest);
        },
    }
}

/// Parsing one encoded member folds it into the article and continues
/// after the separator: at a `,` with the next member, at a `}` by
/// ending the object.
#[verifier::rlimit(100)]
proof fn lemma_parse_member(key: Seq<char>, v: Option<Seq<char>>, a: ArticleV, c: char, t: Seq<char>)
    requires
        escape_seq(key) == key,
        is_known_key(key),
        c == ',' || c == '}',
    ensures
        parse_members(member_seq(key, v) + seq![c] + t, a) == (if c == ',' {
            parse_members(t, set_field(a, key, v))
        } else {
            Some((set_field(a, key, v), t))
        }),
{
    let input = member_seq(key, v) + seq![c] + t;
    let r1 = seq![':'] + enc_value(v) + seq![c] + t;
    let r2 = enc_value(v) + seq![c] + t;
    let s5 = seq![c] + t;
    assert(input[0] == '"');
    assert(skip_ws(input) == input);
    assert(input.drop_first() =~= escape_seq(key) + seq!['"'] + r1);
    lemma_parse_escaped(key, r1);
    assert(parse_str_body(input.drop_first()) == Some((key, r1)));
    assert(r1[0] == ':');
    assert(skip_ws(r1) == r1);
    assert(r1.drop_first() =~= r2);
    assert(enc_value(v).len() > 0);
    assert(r2[0] == enc_value(v)[0]);
    assert(!is_ws(r2[0]));
    assert(skip_ws(r2) == r2);
    lemma_parse_value(v, s5);
    assert(r2 =~= enc_value(v) + s5);
    assert(parse_value(r2) == Some((v, s5)));
    assert(s5[0] == c);
    assert(!is_ws(c));
    assert(skip_ws(s5) == s5);
    assert(s5.drop_first() =~= t);
    if c == ',' {
        assert(t.len() < input.len());
    }
}

/// The five member names hold no character the encoder escapes.
proof fn lemma_keys_plain()
    ensures
        escape_seq(key_title()) == key_title(),
        escape_seq(key_byline()) == key_byline(),
        escape_seq(key_date()) == key_date(),
        escape_seq(key_content()) == key_content(),
        escape_seq(key_plain_content()) == key_plain_content(),
{
    assert forall|i: int| 0 <= i < key_title().len() implies !is_special_char(
        #[trigger] key_title()[i],
    ) by {}
    lemma_escape_plain(key_title());
    assert forall|i: int| 0 <= i < key_byline().len() implies !is_special_char(
        #[trigger] key_byline()[i],
    ) by {}
    lemma_escape_plain(key_byline());
    assert forall|i: int| 0 <= i < key_date().len() implies !is_special_char(
        #[trigger] key_date()[i],
    ) by {}
    lemma_escape_plain(key_date());
    assert forall|i: int| 0 <= i < key_content().len() implies !is_special_char(
        #[trigger] key_content()[i],
    ) by {}
    lemma_escape_plain(key_content());
    assert forall|i: int| 0 <= i < key_plain_content().len() implies !is_special_char(
        #[trigger] key_plain_content()[i],
    ) by {}
    lemma_escape_plain(key_plain_content());
}

/// Encoding an article and decoding the result reproduces every
/// optional field, including the article with all fields absent.
#[verifier::rlimit(100)]
pub proof fn lemma_codec_round_trip(a: ArticleV)
    ensures
        decode_spec(encode_spec(a)) == Some(a),
{
    lemma_keys_plain();
    let m1 = member_seq(key_title(), a.title);
    let m2 = member_seq(key_byline(), a.byline);
    let m3 = member_seq(key_date(), a.date);
    let m4 = member_seq(key_content(), a.content);
    let m5 = member_seq(key_plain_content(), a.plain_content);
    let e = encode_spec(a);
    let a0 = empty_article_v();
    let a1 = set_field(a0, key_title(), a.title);
    let a2 = set_field(a1, key_byline(), a.byline);
    let a3 = set_field(a2, key_date(), a.date);
    let a4 = set_field(a3, key_content(), a.content);
    let a5 = set_field(a4, key_plain_content(), a.plain_content);
    let in5 = m5 + seq!['}'] + Seq::<char>::empty();
    let in4 = m4 + seq![','] + in5;
    let in3 = m3 + seq![','] + in4;
    let in2 = m2 + seq![','] + in3;
    let in1 = m1 + seq![','] + in2;
    lemma_parse_member(key_plain_content(), a.plain_content, a4, '}', Seq::<char>::empty());
    lemma_parse_member(key_content(), a.content, a3, ',', in5);
    lemma_parse_member(key_date(), a.date, a2, ',', in4);
    lemma_parse_member(key_byline(), a.byline, a1, ',', in3);
    lemma_parse_member(key_title(), a.title, a0, ',', in2);
    assert(parse_members(in1, a0) == Some((a5, Seq::<char>::empty())));
    assert(e[0] == '{');
    assert(skip_ws(e) == e);
    assert(e.drop_first() =~= in1);
    assert(in1[0] == '"');
    assert(skip_ws(e.drop_first()) == e.drop_first());
    assert(e.drop_first()[0] != '}');
    assert(parse_members(e.drop_first(), a0) == Some((a5, Seq::<char>::empty())));
    assert(skip_ws(Seq::<char>::empty()).len() == 0);
    assert(a5 == a);
}

fn push_chars(out: &mut Vec<char>, s: &str)
    ensures
        final(out)@ == old(out)@ + s@,
{
    let n = s.unicode_len();
    let mut i: usize = 0;
    while i < n
        invariant
            i <= n,
            n == s@.len(),
            out@ == old(out)@ + s@.subrange(0, i as int),
        decreases n - i,
    {
        let c = s.get_char(i);
        out.push(c);
        proof {
            assert(s@.subrange(0, i + 1 as int) =~= s@.subrange(0, i as int).push(s@[i as int]));
            assert(out@ =~= old(out)@ + s@.subrange(0, i + 1 as int));
        }
        i = i + 1;
    }
    proof {
        assert(s@.subrange(0, n as int) =~= s@);
    }
}

fn push_escaped(out: &mut Vec<char>, s: &str)
    ensures
        final(out)@ == old(out)@ + escape_seq(s@),
{
    let n = s.unicode_len();
    let mut i: usize = 0;
    proof {
        assert(escape_seq(s@.subrange(0, 0)) =~= Seq::<char>::empty());
        assert(out@ =~= out@ + escape_seq(s@.subrange(0, 0)));
    }
    while i < n
        invariant
            i <= n,
            n == s@.len(),
            out@ == old(out)@ + escape_seq(s@.subrange(0, i as int)),
        decreases n - i,
    {
        let c = s.get_char(i);
        if c == '"' {
            out.push('\\');
            out.push('"');
        } else if c == '\\' {
            out.push('\\');
            out.push('\\');
        } else if c == '\n' {
            out.push('\\');
            out.push('n');
        } else if c == '\r' {
            out.push('\\');
            out.push('r');
        } else if c == '\t' {
            out.push('\\');
            out.push('t');
        } else if c == '\u{8}' {
            out.push('\\');
            out.push('b');
        } else if c == '\u{c}' {
            out.push('\\');
            out.push('f');
        } else {
            out.push(c);
        }
        proof {
            lemma_escape_snoc(s@.subrange(0, i as int), s@[i as int]);
            assert(s@.subrange(0, i + 1 as int) =~= s@.subrange(0, i as int).push(s@[i as int]));
            assert(out@ =~= old(out)@ + escape_seq(s@.subrange(0, i + 1 as int)));
        }
        i = i + 1;
    }
    proof {
        assert(s@.subrange(0, n as int) =~= s@);
    }
}

fn push_value(out: &mut Vec<char>, v: &Option<String>)
    ensures
        final(out)@ == old(out)@ + enc_value(v.deep_view()),
{
    match v {
        None => {
            out.push('n');
            out.push('u');
            out.push('l');
            out.push('l');
            proof {
                assert(out@ =~= old(out)@ + enc_value(None));
            }
        },
        Some(s) => {
            out.push('"');
            push_escaped(out, s.as_str());
            out.push('"');
            proof {
                assert(out@ =~= old(out)@ + enc_value(Some(s@)));
            }
        },
    }
}

fn push_member(out: &mut Vec<char>, key: &str, v: &Option<String>)
    ensures
        final(out)@ == old(out)@ + member_seq(key@, v.deep_view()),
{
    out.push('"');
    push_chars(out, key);
    out.push('"');
    out.push(':');
    push_value(out, v);
    proof {
        assert(out@ =~= old(out)@ + member_seq(key@, v.deep_view()));
    }
}

/// Encode an article into the artifact object, all five members in
/// schema order, absent fields written as `null`.
pub fn encode_article(a: &Article) -> (r: String)
    ensures
        r@ == encode_spec(a@),
{
    proof {
        reveal_strlit("title");
        reveal_strlit("byline");
        reveal_strlit("date");
        reveal_strlit("content");
        reveal_strlit("plain_content");
        assert("title"@ =~= key_title());
        assert("byline"@ =~= key_byline());
        assert("date"@ =~= key_date());
        assert("content"@ =~= key_content());
        assert("plain_content"@ =~= key_plain_content());
    }
    let mut out: Vec<char> = Vec::new();
    out.push('{');
    push_member(&mut out, "title", &a.title);
    out.push(',');
    push_member(&mut out, "byline", &a.byline);
    out.push(',');
    push_member(&mut out, "date", &a.date);
    out.push(',');
    push_member(&mut out, "content", &a.content);
    out.push(',');
    push_member(&mut out, "plain_content", &a.plain_content);
    out.push('}');
    proof {
        assert(out@ =~= encode_spec(a@));
    }
    string_of_chars(&out)
}

fn skip_ws_idx(s: &Vec<char>, i: usize) -> (j: usize)
    requires
        i <= s@.len(),
    ensures
        i <= j <= s@.len(),
        skip_ws(s@.skip(i as int)) == s@.skip(j as int),
{
    let n = s.len();
    let mut j = i;
    while j < n && (s[j] == ' ' || s[j] == '\n' || s[j] == '\r' || s[j] == '\t')
        invariant
            i <= j <= n,
            n == s@.len(),
            skip_ws(s@.skip(i as int)) == skip_ws(s@.skip(j as int)),
        decreases n - j,
    {
        proof {
            assert(s@.skip(j as int)[0] == s@[j as int]);
            assert(s@.skip(j as int).drop_first() =~= s@.skip(j + 1 as int));
        }
        j = j + 1;
    }
    proof {
        if j < n {
            assert(s@.skip(j as int)[0] == s@[j as int]);
        } else {
            assert(s@.skip(j as int).len() == 0);
        }
    }
    j
}

fn hex_digit(c: char) -> (r: Option<u32>)
    ensures
        match r {
            Some(v) => hex_val(c) == Some(v as int) && v < 16,
            None => hex_val(c) is None,
        },
{
    let u = c as u32;
    if u >= 48 && u <= 57 {
        Some(u - 48)
    } else if u >= 97 && u <= 102 {
        Some(u - 97 + 10)
    } else if u >= 65 && u <= 70 {
        Some(u - 65 + 10)
    } else {
        None
    }
}

fn parse_u_idx(s: &Vec<char>, k: usize) -> (r: Option<(char, usize)>)
    requires
        k <= s@.len(),
    ensures
        match r {
            Some(p) => k < p.1 <= s@.len() && parse_u_escape(s@.skip(k as int)) == Some(
                (p.0, p.1 - k as int),
            ),
            None => parse_u_escape(s@.skip(k as int)) is None,
        },
{
    let n = s.len();
    let ghost suf = s@.skip(k as int);
    if n - k < 6 {
        proof {
            assert(suf.len() < 6);
        }
        return None;
    }
    proof {
        assert(suf[0] == s@[k as int]);
        assert(suf[1] == s@[k + 1 as int]);
    }
    if !(s[k] == '\\' && s[k + 1] == 'u') {
        return None;
    }
    proof {
        assert(suf.subrange(2, 6)[0] == s@[k + 2 as int]);
        assert(suf.subrange(2, 6)[1] == s@[k + 3 as int]);
        assert(suf.subrange(2, 6)[2] == s@[k + 4 as int]);
        assert(suf.subrange(2, 6)[3] == s@[k + 5 as int]);
    }
    let d0 = hex_digit(s[k + 2]);
    let d1 = hex_digit(s[k + 3]);
    let d2 = hex_digit(s[k + 4]);
    let d3 = hex_digit(s[k + 5]);
    let (v0, v1, v2, v3) = match (d0, d1, d2, d3) {
        (Some(v0), Some(v1), Some(v2), Some(v3)) => (v0, v1, v2, v3),
        _ => {
            proof {
                assert(hex4(suf.subrange(2, 6)) is None);
            }
            return None;
        },
    };
    let cp: u32 = v0 * 0x1000 + v1 * 0x100 + v2 * 0x10 + v3;
    proof {
        assert(hex4(suf.subrange(2, 6)) == Some(cp as int));
    }
    if cp >= 0xD800 && cp < 0xDC00 {
        if n - k < 12 {
            proof {
                assert(suf.len() < 12);
            }
            return None;
        }
        proof {
            assert(suf[6] == s@[k + 6 as int]);
            assert(suf[7] == s@[k + 7 as int]);
        }
        if !(s[k + 6] == '\\' && s[k + 7] == 'u') {
            return None;
        }
        proof {
            assert(suf.subrange(8, 12)[0] == s@[k + 8 as int]);
            assert(suf.subrange(8, 12)[1] == s@[k + 9 as int]);
            assert(suf.subrange(8, 12)[2] == s@[k + 10 as int]);
            assert(suf.subrange(8, 12)[3] == s@[k + 11 as int]);
        }
        let d4 = hex_digit(s[k + 8]);
        let d5 = hex_digit(s[k + 9]);
        let d6 = hex_digit(s[k + 10]);
        let d7 = hex_digit(s[k + 11]);
        let (v4, v5, v6, v7) = match (d4, d5, d6, d7) {
            (Some(v4), Some(v5), Some(v6), Some(v7)) => (v4, v5, v6, v7),
            _ => {
                proof {
                    assert(hex4(suf.subrange(8, 12)) is None);
                }
                return None;
            },
        };
        let lo: u32 = v4 * 0x1000 + v5 * 0x100 + v6 * 0x10 + v7;
        proof {
            assert(hex4(suf.subrange(8, 12)) == Some(lo as int));
        }
        if !(lo >= 0xDC00 && lo < 0xE000) {
            return None;
        }
        let code: u32 = 0x10000 + (cp - 0xD800) * 0x400 + (lo - 0xDC00);
        let ch = match char_from_code(code) {
            Some(ch) => ch,
            None => {
                proof {
                    assert(false);
                }
                '0'
            },
        };
        proof {
            assert(parse_u_escape(suf) == Some((ch, 12int)));
        }
        Some((ch, k + 12))
    } else if cp >= 0xDC00 && cp < 0xE000 {
        return None;
    } else {
        let ch = match char_from_code(cp) {
            Some(ch) => ch,
            None => {
                proof {
                    assert(false);
                }
                '0'
            },
        };
        proof {
            assert(parse_u_escape(suf) == Some((ch, 6int)));
        }
        Some((ch, k + 6))
    }
}

enum StrStep {
    Done(usize),
    Chr(char, usize),
    Bad,
}

#[verifier::rlimit(100)]
fn str_body_step(s: &Vec<char>, k: usize) -> (r: StrStep)
    requires
        k <= s@.len(),
    ensures
        match r {
            StrStep::Done(j) => k < j <= s@.len() && parse_str_body(s@.skip(k as int)) == Some(
                (Seq::<char>::empty(), s@.skip(j as int)),
            ),
            StrStep::Chr(c, j) => k < j <= s@.len() && parse_str_body(s@.skip(k as int)) == (
            match parse_str_body(s@.skip(j as int)) {
                None => None,
                Some(p) => Some((seq![c] + p.0, p.1)),
            }),
            StrStep::Bad => parse_str_body(s@.skip(k as int)) is None,
        },
{
    let n = s.len();
    if k == n {
        proof {
            assert(s@.skip(k as int).len() == 0);
        }
        return StrStep::Bad;
    }
    let ghost suf = s@.skip(k as int);
    proof {
        assert(suf[0] == s@[k as int]);
        assert(suf.len() == n - k);
    }
    let c = s[k];
    if c == '"' {
        proof {
            assert(suf.drop_first() =~= s@.skip(k + 1 as int));
        }
        StrStep::Done(k + 1)
    } else if c == '\\' {
        if n - k < 2 {
            return StrStep::Bad;
        }
        proof {
            assert(suf[1] == s@[k + 1 as int]);
        }
        let e = s[k + 1];
        if e == 'u' {
            match parse_u_idx(s, k) {
                None => StrStep::Bad,
                Some(p) => {
                    proof {
                        assert(suf.skip(p.1 - k as int) =~= s@.skip(p.1 as int));
                    }
                    StrStep::Chr(p.0, p.1)
                },
            }
        } else {
            let decoded = if e == '"' {
                Some('"')
            } else if e == '\\' {
                Some('\\')
            } else if e == '/' {
                Some('/')
            } else if e == 'n' {
                Some('\n')
            } else if e == 'r' {
                Some('\r')
            } else if e == 't' {
                Some('\t')
            } else if e == 'b' {
                Some('\u{8}')
            } else if e == 'f' {
                Some('\u{c}')
            } else {
                None
            };
            match decoded {
                None => {
                    proof {
                        assert(unescape_char(suf[1]) is None);
                    }
                    StrStep::Bad
                },
                Some(d) => {
                    proof {
                        assert(unescape_char(suf[1]) == Some(d));
                        assert(suf.skip(2) =~= s@.skip(k + 2 as int));
                    }
                    StrStep::Chr(d, k + 2)
                },
            }
        }
    } else {
        proof {
            assert(suf.drop_first() =~= s@.skip(k + 1 as int));
        }
        StrStep::Chr(c, k + 1)
    }
}

fn parse_str_body_idx(s: &Vec<char>, start: usize) -> (r: Option<(Vec<char>, usize)>)
    requires
        start <= s@.len(),
    ensures
        match r {
            Some(p) => start < p.1 <= s@.len() && parse_str_body(s@.skip(start as int)) == Some(
                (p.0@, s@.skip(p.1 as int)),
            ),
            None => parse_str_body(s@.skip(start as int)) is None,
        },
{
    let n = s.len();
    let mut acc: Vec<char> = Vec::new();
    let mut k = start;
    loop
        invariant
            start <= k <= n,
            n == s@.len(),
            parse_str_body(s@.skip(start as int)) == (match parse_str_body(s@.skip(k as int)) {
                None => None,
                Some(p) => Some((acc@ + p.0, p.1)),
            }),
        decreases n - k,
    {
        match str_body_step(s, k) {
            StrStep::Bad => {
                return None;
            },
            StrStep::Done(j) => {
                proof {
                    assert(acc@ + Seq::<char>::empty() =~= acc@);
                }
                return Some((acc, j));
            },
            StrStep::Chr(c, j) => {
                let ghost old_acc = acc@;
                acc.push(c);
                proof {
                    match parse_str_body(s@.skip(j as int)) {
                        Some(p) => {
                            assert(old_acc + (seq![c] + p.0) =~= acc@ + p.0);
                        },
                        None => {},
                    }
                }
                k = j;
            },
        }
    }
}

fn parse_value_idx(s: &Vec<char>, start: usize) -> (r: Option<(Option<Vec<char>>, usize)>)
    requires
        start <= s@.len(),
    ensures
        match r {
            Some(p) => start < p.1 <= s@.len() && parse_value(s@.skip(start as int)) == Some(
                (p.0.deep_view(), s@.skip(p.1 as int)),
            ),
            None => parse_value(s@.skip(start as int)) is None,
        },
{
    let n = s.len();
    if start == n {
        proof {
            assert(s@.skip(start as int).len() == 0);
        }
        return None;
    }
    let ghost suf = s@.skip(start as int);
    proof {
        assert(suf[0] == s@[start as int]);
    }
    let c = s[start];
    if c == '"' {
        proof {
            assert(suf.drop_first() =~= s@.skip(start + 1 as int));
        }
        match parse_str_body_idx(s, start + 1) {
            None => None,
            Some(p) => {
                proof {
                    assert(p.0.deep_view() =~= p.0@);
                }
                Some((Some(p.0), p.1))
            },
        }
    } else {
        proof {
            if suf.len() >= 4 {
                assert(suf[1] == s@[start + 1 as int]);
                assert(suf[2] == s@[start + 2 as int]);
                assert(suf[3] == s@[start + 3 as int]);
                assert(suf.skip(4) =~= s@.skip(start + 4 as int));
            }
        }
        if n - start >= 4 && s[start] == 'n' && s[start + 1] == 'u' && s[start + 2] == 'l' && s[start
            + 3] == 'l' {
            Some((None, start + 4))
        } else {
            None
        }
    }
}

fn known_key(k: &Vec<char>) -> (b: bool)
    ensures
        b == is_known_key(k@),
{
    if key_is(k, "title") || key_is(k, "byline") || key_is(k, "date") || key_is(k, "content")
        || key_is(k, "plain_content") {
        proof {
            reveal_strlit("title");
            reveal_strlit("byline");
            reveal_strlit("date");
            reveal_strlit("content");
            reveal_strlit("plain_content");
            assert("title"@ =~= key_title());
            assert("byline"@ =~= key_byline());
            assert("date"@ =~= key_date());
            assert("content"@ =~= key_content());
            assert("plain_content"@ =~= key_plain_content());
        }
        true
    } else {
        proof {
            reveal_strlit("title");
            reveal_strlit("byline");
            reveal_strlit("date");
            reveal_strlit("content");
            reveal_strlit("plain_content");
            assert("title"@ =~= key_title());
            assert("byline"@ =~= key_byline());
            assert("date"@ =~= key_date());
            assert("content"@ =~= key_content());
            assert("plain_content"@ =~= key_plain_content());
        }
        false
    }
}

fn is_scalar_char_exec(c: char) -> (b: bool)
    ensures
        b == is_scalar_char(c),
{
    let u = c as u32;
    (u >= 48 && u <= 57) || (u >= 97 && u <= 122) || (u >= 65 && u <= 90) || u == 45 || u == 43
        || u == 46
}

fn consume_scalars_idx(s: &Vec<char>, i: usize) -> (j: usize)
    requires
        i <= s@.len(),
    ensures
        i <= j <= s@.len(),
        consume_scalars(s@.skip(i as int)) == s@.skip(j as int),
{
    let n = s.len();
    let mut j = i;
    loop
        invariant
            i <= j <= n,
            n == s@.len(),
            consume_scalars(s@.skip(i as int)) == consume_scalars(s@.skip(j as int)),
        decreases n - j,
    {
        if j == n {
            proof {
                assert(s@.skip(j as int).len() == 0);
            }
            return j;
        }
        proof {
            assert(s@.skip(j as int)[0] == s@[j as int]);
            assert(s@.skip(j as int).drop_first() =~= s@.skip(j + 1 as int));
        }
        if !is_scalar_char_exec(s[j]) {
            return j;
        }
        j = j + 1;
    }
}

fn skip_value_idx(s: &Vec<char>, i: usize, depth: u32) -> (r: Option<usize>)
    requires
        i <= s@.len(),
    ensures
        match r {
            Some(j) => i <= j <= s@.len() && skip_value(s@.skip(i as int), depth as int) == Some(
                s@.skip(j as int),
            ),
            None => skip_value(s@.skip(i as int), depth as int) is None,
        },
    decreases depth, s@.len() - i, 0int,
{
    let n = s.len();
    if i == n {
        proof {
            assert(s@.skip(i as int).len() == 0);
        }
        return None;
    }
    let ghost suf = s@.skip(i as int);
    proof {
        assert(suf[0] == s@[i as int]);
        assert(suf.len() == n - i);
    }
    let c = s[i];
    if c == '"' {
        proof {
            assert(suf.drop_first() =~= s@.skip(i + 1 as int));
        }
        match parse_str_body_idx(s, i + 1) {
            None => None,
            Some(p) => Some(p.1),
        }
    } else if c == '[' {
        if depth == 0 {
            return None;
        }
        proof {
            assert(suf.drop_first() =~= s@.skip(i + 1 as int));
        }
        let i1 = skip_ws_idx(s, i + 1);
        proof {
            if i1 < n {
                assert(s@.skip(i1 as int)[0] == s@[i1 as int]);
            } else {
                assert(s@.skip(i1 as int).len() == 0);
            }
            assert(s@.skip(i1 as int).len() < suf.len());
        }
        if i1 < n && s[i1] == ']' {
            proof {
                assert(s@.skip(i1 as int).drop_first() =~= s@.skip(i1 + 1 as int));
            }
            Some(i1 + 1)
        } else {
            skip_array_items_idx(s, i1, depth - 1)
        }
    } else if c == '{' {
        if depth == 0 {
            return None;
        }
        proof {
            assert(suf.drop_first() =~= s@.skip(i + 1 as int));
        }
        let i1 = skip_ws_idx(s, i + 1);
        proof {
            if i1 < n {
                assert(s@.skip(i1 as int)[0] == s@[i1 as int]);
            } else {
                assert(s@.skip(i1 as int).len() == 0);
            }
            assert(s@.skip(i1 as int).len() < suf.len());
        }
        if i1 < n && s[i1] == '}' {
            proof {
                assert(s@.skip(i1 as int).drop_first() =~= s@.skip(i1 + 1 as int));
            }
            Some(i1 + 1)
        } else {
            skip_object_members_idx(s, i1, depth - 1)
        }
    } else {
        if is_scalar_char_exec(c) {
            let j = consume_scalars_idx(s, i);
            Some(j)
        } else {
            None
        }
    }
}

fn skip_array_items_idx(s: &Vec<char>, i: usize, depth: u32) -> (r: Option<usize>)
    requires
        i <= s@.len(),
    ensures
        match r {
            Some(j) => i <= j <= s@.len() && skip_array_items(s@.skip(i as int), depth as int)
                == Some(s@.skip(j as int)),
            None => skip_array_items(s@.skip(i as int), depth as int) is None,
        },
    decreases depth, s@.len() - i, 1int,
{
    let n = s.len();
    let r1 = match skip_value_idx(s, i, depth) {
        None => {
            return None;
        },
        Some(r1) => r1,
    };
    let i2 = skip_ws_idx(s, r1);
    if i2 == n {
        proof {
            assert(s@.skip(i2 as int).len() == 0);
        }
        return None;
    }
    proof {
        assert(s@.skip(i2 as int)[0] == s@[i2 as int]);
        assert(s@.skip(i2 as int).drop_first() =~= s@.skip(i2 + 1 as int));
    }
    if s[i2] == ']' {
        Some(i2 + 1)
    } else if s[i2] == ',' {
        let i3 = skip_ws_idx(s, i2 + 1);
        proof {
            assert(s@.skip(i3 as int).len() < s@.skip(i as int).len());
        }
        skip_array_items_idx(s, i3, depth)
    } else {
        None
    }
}

fn skip_object_members_idx(s: &Vec<char>, i: usize, depth: u32) -> (r: Option<usize>)
    requires
        i <= s@.len(),
    ensures
        match r {
            Some(j) => i <= j <= s@.len() && skip_object_members(s@.skip(i as int), depth as int)
                == Some(s@.skip(j as int)),
            None => skip_object_members(s@.skip(i as int), depth as int) is None,
        },
    decreases depth, s@.len() - i, 1int,
{
    let n = s.len();
    if i == n {
        proof {
            assert(s@.skip(i as int).len() == 0);
        }
        return None;
    }
    proof {
        assert(s@.skip(i as int)[0] == s@[i as int]);
        assert(s@.skip(i as int).drop_first() =~= s@.skip(i + 1 as int));
    }
    if s[i] != '"' {
        return None;
    }
    let r1 = match parse_str_body_idx(s, i + 1) {
        None => {
            return None;
        },
        Some(p) => p.1,
    };
    let i2 = skip_ws_idx(s, r1);
    if i2 == n {
        proof {
            assert(s@.skip(i2 as int).len() == 0);
        }
        return None;
    }
    proof {
        assert(s@.skip(i2 as int)[0] == s@[i2 as int]);
        assert(s@.skip(i2 as int).drop_first() =~= s@.skip(i2 + 1 as int));
    }
    if s[i2] != ':' {
        return None;
    }
    let i3 = skip_ws_idx(s, i2 + 1);
    proof {
        assert(s@.skip(i3 as int).len() < s@.skip(i as int).len());
    }
    let r2 = match skip_value_idx(s, i3, depth) {
        None => {
            return None;
        },
        Some(r2) => r2,
    };
    let i4 = skip_ws_idx(s, r2);
    if i4 == n {
        proof {
            assert(s@.skip(i4 as int).len() == 0);
        }
        return None;
    }
    proof {
        assert(s@.skip(i4 as int)[0] == s@[i4 as int]);
        assert(s@.skip(i4 as int).drop_first() =~= s@.skip(i4 + 1 as int));
    }
    if s[i4] == '}' {
        Some(i4 + 1)
    } else if s[i4] == ',' {
        let i5 = skip_ws_idx(s, i4 + 1);
        proof {
            assert(s@.skip(i5 as int).len() < s@.skip(i as int).len());
        }
        skip_object_members_idx(s, i5, depth)
    } else {
        None
    }
}

fn key_is(k: &Vec<char>, name: &str) -> (b: bool)
    ensures
        b == (k@ == name@),
{
    let n = name.unicode_len();
    if k.len() != n {
        return false;
    }
    let mut i: usize = 0;
    while i < n
        invariant
            i <= n,
            n == name@.len(),
            k@.len() == n,
            forall|j: int| 0 <= j < i ==> k@[j] == name@[j],
        decreases n - i,
    {
        if k[i] != name.get_char(i) {
            return false;
        }
        i = i + 1;
    }
    proof {
        assert(k@ =~= name@);
    }
    true
}

fn set_field_exec(a: &mut Article, key: &Vec<char>, v: &Option<Vec<char>>)
    ensures
        final(a)@ == set_field(old(a)@, key@, v.deep_view()),
{
    proof {
        reveal_strlit("title");
        reveal_strlit("byline");
        reveal_strlit("date");
        reveal_strlit("content");
        reveal_strlit("plain_content");
        assert("title"@ =~= key_title());
        assert("byline"@ =~= key_byline());
        assert("date"@ =~= key_date());
        assert("content"@ =~= key_content());
        assert("plain_content"@ =~= key_plain_content());
    }
    let value: Option<String> = match v {
        None => None,
        Some(cs) => Some(string_of_chars(cs)),
    };
    proof {
        assert(value.deep_view() == v.deep_view());
    }
    if key_is(key, "title") {
        a.title = value;
    } else if key_is(key, "byline") {
        a.byline = value;
    } else if key_is(key, "date") {
        a.date = value;
    } else if key_is(key, "content") {
        a.content = value;
    } else if key_is(key, "plain_content") {
        a.plain_content = value;
    }
}

/// Decode the artifact text into an article; `None` where the text is
/// not an artifact object.
#[verifier::rlimit(100)]
pub fn decode_article(text: &str) -> (r: Option<Article>)
    ensures
        match r {
            Some(a) => decode_spec(text@) == Some(a@),
            None => decode_spec(text@) is None,
        },
{
    let s = chars_of(text);
    let n = s.len();
    proof {
        assert(s@.skip(0) =~= s@);
    }
    let i1 = skip_ws_idx(&s, 0);
    if i1 == n {
        proof {
            assert(s@.skip(i1 as int).len() == 0);
        }
        return None;
    }
    proof {
        assert(s@.skip(i1 as int)[0] == s@[i1 as int]);
    }
    if s[i1] != '{' {
        return None;
    }
    proof {
        assert(s@.skip(i1 as int).drop_first() =~= s@.skip(i1 + 1 as int));
    }
    let i2 = skip_ws_idx(&s, i1 + 1);
    proof {
        if i2 < n {
            assert(s@.skip(i2 as int)[0] == s@[i2 as int]);
        } else {
            assert(s@.skip(i2 as int).len() == 0);
        }
    }
    if i2 < n && s[i2] == '}' {
        proof {
            assert(s@.skip(i2 as int).drop_first() =~= s@.skip(i2 + 1 as int));
        }
        let i3 = skip_ws_idx(&s, i2 + 1);
        if i3 == n {
            proof {
                assert(s@.skip(i3 as int).len() == 0);
            }
            let a = Article::empty();
            return Some(a);
        } else {
            proof {
                assert(s@.skip(i3 as int).len() > 0);
            }
            return None;
        }
    }
    let mut a = Article::empty();
    let mut i = i1 + 1;
    loop
        invariant
            i <= n,
            n == s@.len(),
            decode_spec(text@) == (match parse_members(s@.skip(i as int), a@) {
                None => None,
                Some(p) => if skip_ws(p.1).len() == 0 {
                    Some(p.0)
                } else {
                    None
                },
            }),
        decreases n - i,
    {
        let ghost m_in = s@.skip(i as int);
        let j1 = skip_ws_idx(&s, i);
        if j1 == n {
            proof {
                assert(skip_ws(m_in).len() == 0);
            }
            return None;
        }
        proof {
            assert(s@.skip(j1 as int)[0] == s@[j1 as int]);
        }
        if s[j1] != '"' {
            return None;
        }
        proof {
            assert(s@.skip(j1 as int).drop_first() =~= s@.skip(j1 + 1 as int));
        }
        let (key, j2) = match parse_str_body_idx(&s, j1 + 1) {
            None => {
                return None;
            },
            Some(p) => p,
        };
        let j3 = skip_ws_idx(&s, j2);
        proof {
            if j3 < n {
                assert(s@.skip(j3 as int)[0] == s@[j3 as int]);
            } else {
                assert(s@.skip(j3 as int).len() == 0);
            }
        }
        if j3 == n {
            return None;
        }
        if s[j3] != ':' {
            return None;
        }
        proof {
            assert(s@.skip(j3 as int).drop_first() =~= s@.skip(j3 + 1 as int));
        }
        let j4 = skip_ws_idx(&s, j3 + 1);
        let j5 = if known_key(&key) {
            let (v, j5) = match parse_value_idx(&s, j4) {
                None => {
                    return None;
                },
                Some(p) => p,
            };
            set_field_exec(&mut a, &key, &v);
            j5
        } else {
            match skip_value_idx(&s, j4, 128) {
                None => {
                    return None;
                },
                Some(j5) => j5,
            }
        };
        let j6 = skip_ws_idx(&s, j5);
        if j6 == n {
            proof {
                assert(s@.skip(j6 as int).len() == 0);
            }
            return None;
        }
        proof {
            assert(s@.skip(j6 as int)[0] == s@[j6 as int]);
            assert(s@.skip(j6 as int).drop_first() =~= s@.skip(j6 + 1 as int));
        }
        if s[j6] == '}' {
            let j7 = skip_ws_idx(&s, j6 + 1);
            if j7 == n {
                proof {
                    assert(s@.skip(j7 as int).len() == 0);
                }
                return Some(a);
            } else {
                proof {
                    assert(s@.skip(j7 as int).len() > 0);
                }
                return None;
            }
        } else if s[j6] == ',' {
            i = j6 + 1;
        } else {
            return None;
        }
    }
}

} // verus!
