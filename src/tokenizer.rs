use vstd::prelude::*;

verus! {

/// White space as `char::is_whitespace` has it (the Unicode `White_Space` property):
/// tab, line feed, vertical tab, form feed, carriage return, space, and the wider
/// Unicode spaces and separators.
pub open spec fn is_space(c: char) -> bool {
    let u = c as u32;
    ||| 0x9 <= u <= 0xd
    ||| u == 0x20
    ||| u == 0x85
    ||| u == 0xa0
    ||| u == 0x1680
    ||| 0x2000 <= u <= 0x200a
    ||| u == 0x2028
    ||| u == 0x2029
    ||| u == 0x202f
    ||| u == 0x205f
    ||| u == 0x3000
}

/// Length of the run of non-space characters that `s` starts with.
pub open spec fn word_len(s: Seq<char>) -> nat
    decreases s.len(),
{
    if s.len() == 0 || is_space(s[0]) {
        0
    } else {
        1 + word_len(s.drop_first())
    }
}

/// The tokens of `s`: its maximal runs of non-space characters, in order.
pub open spec fn tokens(s: Seq<char>) -> Seq<Seq<char>>
    decreases s.len(),
{
    if s.len() == 0 {
        Seq::empty()
    } else if is_space(s[0]) {
        tokens(s.drop_first())
    } else {
        proof {
            lemma_word_len(s);
        }
        let k = word_len(s) as int;
        seq![s.take(k)] + tokens(s.skip(k))
    }
}

/// A word run stays inside the text, and a text that starts with a non-space has one.
pub proof fn lemma_word_len(s: Seq<char>)
    ensures
        word_len(s) <= s.len(),
        s.len() > 0 && !is_space(s[0]) ==> word_len(s) >= 1,
        forall|i: int| 0 <= i < word_len(s) ==> !is_space(#[trigger] s[i]),
        word_len(s) < s.len() ==> is_space(s[word_len(s) as int]),
    decreases s.len(),
{
    if s.len() > 0 && !is_space(s[0]) {
        lemma_word_len(s.drop_first());
        assert forall|i: int| 0 <= i < word_len(s) implies !is_space(#[trigger] s[i]) by {
            if i > 0 {
                assert(s[i] == s.drop_first()[i - 1]);
            }
        }
    }
}

/// `s` without its leading white space.
pub open spec fn trim_start(s: Seq<char>) -> Seq<char>
    decreases s.len(),
{
    if s.len() > 0 && is_space(s[0]) {
        trim_start(s.drop_first())
    } else {
        s
    }
}

/// `s` without its trailing white space.
pub open spec fn trim_end(s: Seq<char>) -> Seq<char>
    decreases s.len(),
{
    if s.len() > 0 && is_space(s.last()) {
        trim_end(s.drop_last())
    } else {
        s
    }
}

/// `s` without leading and trailing white space.
pub open spec fn trim(s: Seq<char>) -> Seq<char> {
    trim_end(trim_start(s))
}

/// A line cut after its first word: the trimmed line's leading run of non-space characters,
/// and the rest of the trimmed line, trimmed again.
pub open spec fn split_first_word(s: Seq<char>) -> (Seq<char>, Seq<char>) {
    let t = trim(s);
    let k = word_len(t) as int;
    (t.take(k), trim(t.skip(k)))
}

/// The command name of a line: its first token, or empty for a blank line.
pub open spec fn command_of(s: Seq<char>) -> Seq<char> {
    if tokens(s).len() == 0 {
        Seq::empty()
    } else {
        tokens(s)[0]
    }
}

/// The arguments of a line: the tokens after the first.
pub open spec fn args_of(s: Seq<char>) -> Seq<Seq<char>> {
    if tokens(s).len() == 0 {
        Seq::empty()
    } else {
        tokens(s).drop_first()
    }
}

/// A word: a non-empty run of non-space characters.
pub open spec fn is_word(w: Seq<char>) -> bool {
    w.len() > 0 && forall|j: int| 0 <= j < w.len() ==> !is_space(#[trigger] w[j])
}

/// The words `ws` joined by single spaces: the normal form of a line with these tokens.
pub open spec fn join_words(ws: Seq<Seq<char>>) -> Seq<char>
    decreases ws.len(),
{
    if ws.len() == 0 {
        Seq::empty()
    } else if ws.len() == 1 {
        ws[0]
    } else {
        ws[0] + seq![' '] + join_words(ws.drop_first())
    }
}

/// Every token is a word.
pub proof fn lemma_tokens_are_words(s: Seq<char>)
    ensures
        forall|i: int| 0 <= i < tokens(s).len() ==> is_word(#[trigger] tokens(s)[i]),
    decreases s.len(),
{
    if s.len() == 0 {
        assert(tokens(s).len() == 0);
    } else {
        if is_space(s[0]) {
            lemma_tokens_are_words(s.drop_first());
            assert(tokens(s) == tokens(s.drop_first()));
        } else {
            lemma_word_len(s);
            let k = word_len(s) as int;
            lemma_tokens_are_words(s.skip(k));
            assert forall|i: int| 0 <= i < tokens(s).len() implies is_word(#[trigger] tokens(s)[i]) by {
                if i == 0 {
                    assert(tokens(s)[0] == s.take(k));
                    assert forall|j: int| 0 <= j < k implies !is_space(#[trigger] s.take(k)[j]) by {
                        assert(s.take(k)[j] == s[j]);
                    }
                } else {
                    assert(tokens(s)[i] == tokens(s.skip(k))[i - 1]);
                }
            }
        }
    }
}

/// A word followed by nothing or by white space is exactly the first word run.
proof fn lemma_word_len_of_word(w: Seq<char>, r: Seq<char>)
    requires
        is_word(w),
        r.len() == 0 || is_space(r[0]),
    ensures
        word_len(w + r) == w.len(),
    decreases w.len(),
{
    assert((w + r)[0] == w[0]);
    assert(!is_space(w[0]));
    if w.len() > 1 {
        let w1 = w.drop_first();
        assert(is_word(w1)) by {
            assert forall|j: int| 0 <= j < w1.len() implies !is_space(#[trigger] w1[j]) by {
                assert(w1[j] == w[j + 1]);
            }
        }
        lemma_word_len_of_word(w1, r);
        assert((w + r).drop_first() =~= w1 + r);
    } else {
        assert((w + r).drop_first() =~= r);
        assert(word_len(r) == 0);
    }
}

/// Joining words by single spaces and splitting again gives the words back.
pub proof fn lemma_tokens_of_joined_words(ws: Seq<Seq<char>>)
    requires
        forall|i: int| 0 <= i < ws.len() ==> is_word(#[trigger] ws[i]),
    ensures
        tokens(join_words(ws)) == ws,
    decreases ws.len(),
{
    if ws.len() == 0 {
        assert(tokens(join_words(ws)) =~= ws);
    } else {
        let w = ws[0];
        assert(is_word(w));
        let r = if ws.len() == 1 {
            Seq::<char>::empty()
        } else {
            seq![' '] + join_words(ws.drop_first())
        };
        let j = join_words(ws);
        assert(j =~= w + r);
        lemma_word_len_of_word(w, r);
        let k = w.len() as int;
        assert(j.take(k) =~= w);
        assert(j.skip(k) =~= r);
        assert(j[0] == w[0]);
        if ws.len() == 1 {
            assert(tokens(r) =~= Seq::<Seq<char>>::empty());
            assert(tokens(j) =~= ws);
        } else {
            let rest = ws.drop_first();
            assert forall|i: int| 0 <= i < rest.len() implies is_word(#[trigger] rest[i]) by {
                assert(rest[i] == ws[i + 1]);
            }
            lemma_tokens_of_joined_words(rest);
            assert(r.drop_first() =~= join_words(rest));
            assert(tokens(r) == tokens(join_words(rest)));
            assert(tokens(j) =~= ws);
        }
    }
}

/// Tokenizing is idempotent on normalized input: a line and its normal form (its tokens
/// joined by single spaces) have the same tokens.
pub proof fn lemma_tokenize_normalized(s: Seq<char>)
    ensures
        tokens(join_words(tokens(s))) == tokens(s),
{
    lemma_tokens_are_words(s);
    lemma_tokens_of_joined_words(tokens(s));
}

/// Leading white space holds no token.
proof fn lemma_tokens_trim_start(s: Seq<char>)
    ensures
        tokens(trim_start(s)) == tokens(s),
        trim_start(s).len() > 0 ==> !is_space(trim_start(s)[0]),
    decreases s.len(),
{
    if s.len() > 0 && is_space(s[0]) {
        lemma_tokens_trim_start(s.drop_first());
    }
}

/// A white-space character at the end does not change the first word run.
proof fn lemma_word_len_push_space(s: Seq<char>, c: char)
    requires
        is_space(c),
    ensures
        word_len(s.push(c)) == word_len(s),
    decreases s.len(),
{
    if s.len() == 0 {
        assert(s.push(c)[0] == c);
    } else {
        assert(s.push(c)[0] == s[0]);
        if !is_space(s[0]) {
            assert(s.push(c).drop_first() =~= s.drop_first().push(c));
            lemma_word_len_push_space(s.drop_first(), c);
        }
    }
}

/// A white-space character at the end holds no token.
proof fn lemma_tokens_push_space(s: Seq<char>, c: char)
    requires
        is_space(c),
    ensures
        tokens(s.push(c)) == tokens(s),
    decreases s.len(),
{
    let t = s.push(c);
    if s.len() == 0 {
        assert(t[0] == c);
        assert(t.drop_first() =~= s);
    } else if is_space(s[0]) {
        assert(t[0] == s[0]);
        assert(t.drop_first() =~= s.drop_first().push(c));
        lemma_tokens_push_space(s.drop_first(), c);
    } else {
        assert(t[0] == s[0]);
        lemma_word_len(s);
        lemma_word_len_push_space(s, c);
        let k = word_len(s) as int;
        assert(t.take(k) =~= s.take(k));
        assert(t.skip(k) =~= s.skip(k).push(c));
        lemma_tokens_push_space(s.skip(k), c);
    }
}

/// Trailing white space holds no token, and trimming it keeps a prefix.
proof fn lemma_tokens_trim_end(s: Seq<char>)
    ensures
        tokens(trim_end(s)) == tokens(s),
        trim_end(s).len() <= s.len(),
        forall|i: int| 0 <= i < trim_end(s).len() ==> #[trigger] trim_end(s)[i] == s[i],
    decreases s.len(),
{
    if s.len() > 0 && is_space(s.last()) {
        let d = s.drop_last();
        lemma_tokens_trim_end(d);
        assert(d.push(s.last()) =~= s);
        lemma_tokens_push_space(d, s.last());
        assert forall|i: int| 0 <= i < trim_end(s).len() implies #[trigger] trim_end(s)[i]
            == s[i] by {
            assert(trim_end(s)[i] == d[i]);
        }
    }
}

/// Trimming keeps the tokens, and a trimmed text that is not empty starts with a
/// non-space character.
pub proof fn lemma_tokens_trim(s: Seq<char>)
    ensures
        tokens(trim(s)) == tokens(s),
        trim(s).len() > 0 ==> !is_space(trim(s)[0]),
{
    lemma_tokens_trim_start(s);
    lemma_tokens_trim_end(trim_start(s));
    if trim(s).len() > 0 {
        assert(trim(s)[0] == trim_start(s)[0]);
    }
}

/// What [`parse_cmd`] returns agrees with the tokens: its command part is the line's first
/// token (empty for a blank line), and the tokens of its argument part are the line's other
/// tokens.
pub proof fn lemma_split_first_word(s: Seq<char>)
    ensures
        split_first_word(s).0 == command_of(s),
        tokens(split_first_word(s).1) == args_of(s),
{
    let t = trim(s);
    lemma_tokens_trim(s);
    let k = word_len(t) as int;
    if t.len() == 0 {
        assert(tokens(t).len() == 0);
        assert(t.take(k) =~= Seq::<char>::empty());
        assert(t.skip(k) =~= Seq::<char>::empty());
        lemma_tokens_trim(t.skip(k));
        assert(tokens(t.skip(k)).len() == 0);
    } else {
        assert(tokens(t) == seq![t.take(k)] + tokens(t.skip(k)));
        lemma_tokens_trim(t.skip(k));
        assert(tokens(t).drop_first() =~= tokens(t.skip(k)));
    }
}

/// Words joined by single spaces start and end with a non-space character.
proof fn lemma_joined_words_ends(ws: Seq<Seq<char>>)
    requires
        ws.len() > 0,
        forall|i: int| 0 <= i < ws.len() ==> is_word(#[trigger] ws[i]),
    ensures
        join_words(ws).len() > 0,
        !is_space(join_words(ws)[0]),
        !is_space(join_words(ws).last()),
    decreases ws.len(),
{
    let w = ws[0];
    assert(is_word(w));
    assert(!is_space(w[0]));
    if ws.len() == 1 {
        assert(!is_space(w[w.len() - 1]));
    } else {
        let rest = ws.drop_first();
        assert forall|i: int| 0 <= i < rest.len() implies is_word(#[trigger] rest[i]) by {
            assert(rest[i] == ws[i + 1]);
        }
        lemma_joined_words_ends(rest);
        let j = join_words(ws);
        assert(j == w + seq![' '] + join_words(rest));
        assert(j[0] == w[0]);
        assert(j.last() == join_words(rest).last());
    }
}

/// On a normalized line, [`parse_cmd`] returns the first word and the other words joined
/// by single spaces, so joining its two parts again gives the line back.
pub proof fn lemma_split_first_word_normalized(ws: Seq<Seq<char>>)
    requires
        ws.len() > 0,
        forall|i: int| 0 <= i < ws.len() ==> is_word(#[trigger] ws[i]),
    ensures
        split_first_word(join_words(ws)) == (ws[0], join_words(ws.drop_first())),
{
    let s = join_words(ws);
    lemma_joined_words_ends(ws);
    assert(trim_start(s) == s);
    assert(trim_end(s) == s);
    assert(trim(s) == s);
    let w = ws[0];
    assert(is_word(w));
    let rest = ws.drop_first();
    let r = if ws.len() == 1 {
        Seq::<char>::empty()
    } else {
        seq![' '] + join_words(rest)
    };
    assert(s =~= w + r);
    lemma_word_len_of_word(w, r);
    let k = w.len() as int;
    assert(s.take(k) =~= w);
    assert(s.skip(k) =~= r);
    if ws.len() == 1 {
        assert(rest.len() == 0);
        assert(trim(r) =~= join_words(rest));
    } else {
        assert forall|i: int| 0 <= i < rest.len() implies is_word(#[trigger] rest[i]) by {
            assert(rest[i] == ws[i + 1]);
        }
        lemma_joined_words_ends(rest);
        let j = join_words(rest);
        assert(r.drop_first() =~= j);
        assert(trim_start(r) == trim_start(j));
        assert(trim_start(j) == j);
        assert(trim_end(j) == j);
    }
}

/// Views of a sequence of string slices.
pub open spec fn views(ts: Seq<&str>) -> Seq<Seq<char>> {
    ts.map_values(|t: &str| t@)
}

/// Tells whether `c` is white space in the sense of [`is_space`].
pub fn is_space_char(c: char) -> (r: bool)
    ensures
        r == is_space(c),
{
    let u = c as u32;
    (0x9 <= u && u <= 0xd) || u == 0x20 || u == 0x85 || u == 0xa0 || u == 0x1680 || (0x2000 <= u
        && u <= 0x200a) || u == 0x2028 || u == 0x2029 || u == 0x202f || u == 0x205f || u == 0x3000
}

/// The characters of `s`, one per element.
fn chars_of(s: &str) -> (v: Vec<char>)
    ensures
        v@ == s@,
{
    broadcast use vstd::string::group_string_axioms;

    let mut v: Vec<char> = Vec::new();
    for c in it: s.chars()
        invariant
            it.seq() == s@,
            v@ == it.seq().take(it.index()),
    {
        v.push(c);
    }
    v
}

/// Splits `args` into its tokens: maximal runs of non-space characters, in order.
pub fn split_args(args: &str) -> (r: Vec<&str>)
    ensures
        views(r@) == tokens(args@),
{
    let chars = chars_of(args);
    let n = chars.len();
    let ghost s = args@;
    let mut out: Vec<&str> = Vec::new();
    let mut i: usize = 0;
    assert(s.skip(0) =~= s);
    assert(views(out@) + tokens(s) =~= tokens(s));
    while i < n
        invariant
            n == s.len(),
            chars@ == s,
            s == args@,
            i <= n,
            views(out@) + tokens(s.skip(i as int)) == tokens(s),
        decreases n - i,
    {
        if is_space_char(chars[i]) {
            assert(s.skip(i as int).drop_first() =~= s.skip(i + 1));
            i = i + 1;
        } else {
            let start = i;
            let ghost rest = s.skip(start as int);
            while i < n && !is_space_char(chars[i])
                invariant
                    n == s.len(),
                    chars@ == s,
                    start <= i <= n,
                    rest == s.skip(start as int),
                    word_len(rest) == (i - start) + word_len(s.skip(i as int)),
                decreases n - i,
            {
                assert(s.skip(i as int).drop_first() =~= s.skip(i + 1));
                i = i + 1;
            }
            let word = args.substring_char(start, i);
            proof {
                lemma_word_len(rest);
                assert(rest.take(word_len(rest) as int) =~= word@);
                assert(rest.skip(word_len(rest) as int) =~= s.skip(i as int));
                assert(views(out@.push(word)) =~= views(out@).push(word@));
            }
            out.push(word);
        }
    }
    assert(s.skip(n as int) =~= Seq::<char>::empty());
    out
}

/// Splits a line into its command name and the text of its arguments, as
/// [`split_first_word`] describes: `"  cmd  a b "` gives `("cmd", "a b")`.
pub fn parse_cmd(line: &str) -> (r: (&str, &str))
    ensures
        (r.0@, r.1@) == split_first_word(line@),
        r.0@ == command_of(line@),
        tokens(r.1@) == args_of(line@),
{
    proof {
        lemma_split_first_word(line@);
    }
    let chars = chars_of(line);
    let n = chars.len();
    let ghost s = line@;
    // Leading white space.
    let mut a: usize = 0;
    assert(s.skip(0) =~= s);
    while a < n && is_space_char(chars[a])
        invariant
            n == s.len(),
            chars@ == s,
            a <= n,
            trim_start(s) == trim_start(s.skip(a as int)),
        decreases n - a,
    {
        assert(s.skip(a as int).drop_first() =~= s.skip(a + 1));
        a = a + 1;
    }
    assert(trim_start(s) == s.subrange(a as int, n as int)) by {
        assert(s.skip(a as int) =~= s.subrange(a as int, n as int));
    }
    // Trailing white space.
    let mut e: usize = n;
    while e > a && is_space_char(chars[e - 1])
        invariant
            n == s.len(),
            chars@ == s,
            a <= e <= n,
            trim(s) == trim_end(s.subrange(a as int, e as int)),
        decreases e,
    {
        assert(s.subrange(a as int, e as int).drop_last() =~= s.subrange(a as int, e - 1));
        e = e - 1;
    }
    let ghost t = s.subrange(a as int, e as int);
    assert(trim(s) == t);
    // The first word.
    let mut b: usize = a;
    assert(t.skip(0) =~= s.subrange(a as int, e as int));
    while b < e && !is_space_char(chars[b])
        invariant
            n == s.len(),
            chars@ == s,
            a <= b <= e <= n,
            t == s.subrange(a as int, e as int),
            word_len(t) == (b - a) + word_len(s.subrange(b as int, e as int)),
        decreases e - b,
    {
        assert(s.subrange(b as int, e as int).drop_first() =~= s.subrange(b + 1, e as int));
        b = b + 1;
    }
    assert(t.take(word_len(t) as int) =~= s.subrange(a as int, b as int));
    assert(t.skip(word_len(t) as int) =~= s.subrange(b as int, e as int));
    // White space between the command and its arguments.
    let mut c: usize = b;
    while c < e && is_space_char(chars[c])
        invariant
            n == s.len(),
            chars@ == s,
            b <= c <= e <= n,
            trim_start(s.subrange(b as int, e as int)) == trim_start(s.subrange(c as int, e as int)),
        decreases e - c,
    {
        assert(s.subrange(c as int, e as int).drop_first() =~= s.subrange(c + 1, e as int));
        c = c + 1;
    }
    if c < e {
        assert(trim_end(s.subrange(c as int, e as int)) == s.subrange(c as int, e as int));
    }
    (line.substring_char(a, b), line.substring_char(c, e))
}

/// Splits a line into its command name and its argument tokens. A blank line, or the
/// empty string, gives an empty name and no arguments.
pub fn tokenize(line: &str) -> (r: (&str, Vec<&str>))
    ensures
        r.0@ == command_of(line@),
        views(r.1@) == args_of(line@),
{
    let mut words = split_args(line);
    if words.len() == 0 {
        (line.substring_char(0, 0), words)
    } else {
        let command = words.remove(0);
        assert(views(words@) =~= tokens(line@).drop_first());
        (command, words)
    }
}

} // verus!
