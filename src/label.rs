use vstd::prelude::*;

verus! {

/// The characters that `String::from_utf8_lossy` makes of `b`: each invalid
/// sequence becomes U+FFFD.
pub uninterp spec fn lossy_text(b: Seq<u8>) -> Seq<char>;

/// Relies on `String::from_utf8_lossy`: the text depends on the bytes alone.
#[verifier::external_body]
fn decode_lossy(b: &[u8]) -> (r: Vec<char>)
    ensures
        r@ == lossy_text(b@),
{
    String::from_utf8_lossy(b).chars().collect()
}

/// Relies on `String::push`: appends one character at the end.
#[verifier::external_body]
fn push_char(s: &mut String, c: char)
    ensures
        final(s)@ == old(s)@.push(c),
{
    s.push(c)
}

/// `s` with every line break replaced by `": "`.
pub open spec fn fold_newlines(s: Seq<char>) -> Seq<char>
    decreases s.len(),
{
    if s.len() == 0 {
        Seq::empty()
    } else {
        let last = s.last();
        fold_newlines(s.drop_last()) + if last == '\n' {
            seq![':', ' ']
        } else {
            seq![last]
        }
    }
}

/// Replaces every line break of `s` by `": "`, so that a description of
/// several lines reads as one.
pub fn fold_lines(s: &Vec<char>) -> (r: String)
    ensures
        r@ == fold_newlines(s@),
{
    let mut r = String::new();
    let mut i: usize = 0;
    while i < s.len()
        invariant
            i <= s@.len(),
            r@ == fold_newlines(s@.take(i as int)),
        decreases s@.len() - i,
    {
        let c = s[i];
        assert(s@.take(i + 1).drop_last() == s@.take(i as int));
        if c == '\n' {
            push_char(&mut r, ':');
            push_char(&mut r, ' ');
        } else {
            push_char(&mut r, c);
        }
        i = i + 1;
    }
    assert(s@.take(s@.len() as int) == s@);
    r
}

/// The display text of a native description: decoded with invalid
/// sequences replaced, then made a single line.
pub fn description_text(desc: &[u8]) -> (r: String)
    ensures
        r@ == fold_newlines(lossy_text(desc@)),
{
    let chars = decode_lossy(desc);
    fold_lines(&chars)
}

/// Folding distributes over concatenation.
pub proof fn lemma_fold_concat(a: Seq<char>, b: Seq<char>)
    ensures
        fold_newlines(a + b) == fold_newlines(a) + fold_newlines(b),
    decreases b.len(),
{
    if b.len() == 0 {
        assert(a + b =~= a);
        assert(fold_newlines(a) + fold_newlines(b) =~= fold_newlines(a));
    } else {
        let c = b.last();
        assert((a + b).drop_last() =~= a + b.drop_last());
        assert((a + b).last() == c);
        lemma_fold_concat(a, b.drop_last());
        let tail = if c == '\n' {
            seq![':', ' ']
        } else {
            seq![c]
        };
        assert(fold_newlines(a + b) == fold_newlines(a + b.drop_last()) + tail);
        assert(fold_newlines(b) == fold_newlines(b.drop_last()) + tail);
        assert(fold_newlines(a) + fold_newlines(b.drop_last()) + tail =~= fold_newlines(a) + (
        fold_newlines(b.drop_last()) + tail));
    }
}

/// Text without line breaks is left as it is.
pub proof fn lemma_fold_single_line(s: Seq<char>)
    requires
        !s.contains('\n'),
    ensures
        fold_newlines(s) == s,
    decreases s.len(),
{
    if s.len() > 0 {
        assert(!s.drop_last().contains('\n')) by {
            if s.drop_last().contains('\n') {
                let k = choose|k: int| 0 <= k < s.drop_last().len() && s.drop_last()[k] == '\n';
                assert(s[k] == '\n');
            }
        }
        lemma_fold_single_line(s.drop_last());
        assert(s[s.len() - 1] != '\n');
        assert(s.drop_last() + seq![s.last()] =~= s);
    }
}

/// Two lines joined by a line break read as one, joined by `": "`.
pub proof fn lemma_fold_two_lines(first: Seq<char>, second: Seq<char>)
    requires
        !first.contains('\n'),
        !second.contains('\n'),
    ensures
        fold_newlines(first + seq!['\n'] + second) == first + seq![':', ' '] + second,
{
    lemma_fold_concat(first + seq!['\n'], second);
    lemma_fold_concat(first, seq!['\n']);
    lemma_fold_single_line(first);
    lemma_fold_single_line(second);
    let nl = seq!['\n'];
    assert(nl.drop_last() =~= Seq::<char>::empty());
    assert(nl.last() == '\n');
    assert(fold_newlines(nl.drop_last()) =~= Seq::<char>::empty());
    assert(fold_newlines(nl) =~= seq![':', ' ']);
}

} // verus!
