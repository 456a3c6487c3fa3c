use vstd::prelude::*;

verus! {

/// Whether the fixed substitution table maps this character explicitly.
pub open spec fn has_explicit_mapping(c: char) -> bool {
    c == '\u{1F600}' || c == '\u{1F603}' || c == '\u{1F604}'
        || c == '\u{1F622}' || c == '\u{1F62D}'
        || c == '\u{1F60E}'
        || c == '\u{2764}' || c == '\u{1F495}' || c == '\u{1F496}'
        || c == '\u{1F44D}' || c == '\u{1F44E}'
        || c == '\u{1F389}' || c == '\u{1F38A}'
        || c == '\u{2728}'
        || c == '\u{1F525}'
        || c == '\u{1F4AF}'
        || c == '\u{1F44B}'
}

/// What one character of caption text becomes: a fixed ASCII substitution for
/// the emoji in the table, a question mark for any other character of the
/// pictographic range, and the character itself otherwise.
pub open spec fn emoji_replacement(c: char) -> Seq<char> {
    if c == '\u{1F600}' || c == '\u{1F603}' || c == '\u{1F604}' {
        seq![':', ')']
    } else if c == '\u{1F622}' || c == '\u{1F62D}' {
        seq![':', '(']
    } else if c == '\u{1F60E}' {
        seq!['B', ')']
    } else if c == '\u{2764}' || c == '\u{1F495}' || c == '\u{1F496}' {
        seq!['<', '3']
    } else if c == '\u{1F44D}' {
        seq!['+', '1']
    } else if c == '\u{1F44E}' {
        seq!['-', '1']
    } else if c == '\u{1F389}' || c == '\u{1F38A}' {
        seq!['*']
    } else if c == '\u{2728}' {
        seq!['*']
    } else if c == '\u{1F525}' {
        seq!['f', 'i', 'r', 'e']
    } else if c == '\u{1F4AF}' {
        seq!['1', '0', '0']
    } else if c == '\u{1F44B}' {
        seq!['w', 'a', 'v', 'e']
    } else if 0x1F300 <= (c as u32) && (c as u32) <= 0x1F9FF {
        seq!['?']
    } else {
        seq![c]
    }
}

/// The normalization of the first `n` characters of a caption.
pub open spec fn replaced_prefix(s: Seq<char>, n: int) -> Seq<char>
    decreases n,
{
    if n <= 0 {
        Seq::empty()
    } else {
        replaced_prefix(s, n - 1) + emoji_replacement(s[n - 1])
    }
}

/// The normalization of a whole caption: each character replaced by its
/// substitution, in order.
pub open spec fn replaced_text(s: Seq<char>) -> Seq<char> {
    replaced_prefix(s, s.len() as int)
}

/// Substitutes known emoji with their ASCII stand-ins and any other
/// pictographic character with `?`; all other characters pass through
/// unchanged. Total over arbitrary text.
pub fn replace_emojis_with_text(text: &str) -> (r: String)
    ensures
        r@ == replaced_text(text@),
{
    let n: usize = text.unicode_len();
    let mut out = String::new();
    let mut i: usize = 0;
    while i < n
        invariant
            i <= n,
            n == text@.len(),
            out@ == replaced_prefix(text@, i as int),
        decreases n - i,
    {
        let c = text.get_char(i);
        if c == '\u{1F600}' || c == '\u{1F603}' || c == '\u{1F604}' {
            out.push(':');
            out.push(')');
        } else if c == '\u{1F622}' || c == '\u{1F62D}' {
            out.push(':');
            out.push('(');
        } else if c == '\u{1F60E}' {
            out.push('B');
            out.push(')');
        } else if c == '\u{2764}' || c == '\u{1F495}' || c == '\u{1F496}' {
            out.push('<');
            out.push('3');
        } else if c == '\u{1F44D}' {
            out.push('+');
            out.push('1');
        } else if c == '\u{1F44E}' {
            out.push('-');
            out.push('1');
        } else if c == '\u{1F389}' || c == '\u{1F38A}' {
            out.push('*');
        } else if c == '\u{2728}' {
            out.push('*');
        } else if c == '\u{1F525}' {
            out.push('f');
            out.push('i');
            out.push('r');
            out.push('e');
        } else if c == '\u{1F4AF}' {
            out.push('1');
            out.push('0');
            out.push('0');
        } else if c == '\u{1F44B}' {
            out.push('w');
            out.push('a');
            out.push('v');
            out.push('e');
        } else {
            let code = c as u32;
            if 0x1F300 <= code && code <= 0x1F9FF {
                out.push('?');
            } else {
                out.push(c);
            }
        }
        assert(out@ == replaced_prefix(text@, i + 1));
        i = i + 1;
    }
    out
}

/// Any pictographic-range character without an explicit substitution becomes
/// exactly one question mark.
pub proof fn lemma_unmapped_pictographic_is_question(c: char)
    requires
        0x1F300 <= (c as u32) <= 0x1F9FF,
        !has_explicit_mapping(c),
    ensures
        emoji_replacement(c) == seq!['?'],
{
}

/// A single ASCII character passes through normalization unchanged.
pub proof fn lemma_ascii_char_unchanged(c: char)
    requires
        (c as u32) < 0x80,
    ensures
        emoji_replacement(c) == seq![c],
{
}

/// Normalization is the identity on text made of ASCII characters alone.
pub proof fn lemma_ascii_text_unchanged(s: Seq<char>)
    requires
        forall|i: int| 0 <= i < s.len() ==> ((#[trigger] s[i]) as u32) < 0x80,
    ensures
        replaced_text(s) == s,
    decreases s.len(),
{
    lemma_ascii_prefix_unchanged(s, s.len() as int);
}

proof fn lemma_ascii_prefix_unchanged(s: Seq<char>, n: int)
    requires
        0 <= n <= s.len(),
        forall|i: int| 0 <= i < s.len() ==> ((#[trigger] s[i]) as u32) < 0x80,
    ensures
        replaced_prefix(s, n) == s.take(n),
    decreases n,
{
    if n <= 0 {
        assert(replaced_prefix(s, n) =~= s.take(n));
    } else {
        lemma_ascii_prefix_unchanged(s, n - 1);
        lemma_ascii_char_unchanged(s[n - 1]);
        assert(replaced_prefix(s, n) =~= s.take(n));
    }
}

} // verus!
