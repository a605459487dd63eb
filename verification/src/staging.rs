//! Staged-file names and engine request lines.
//!
//! Each audio chunk is written to a file whose name is a freshly generated
//! identifier plus a fixed extension for the audio container; the file's
//! path, followed by one line terminator, is the request sent to the
//! inference engine.

use vstd::prelude::*;
use vstd::string::*;

verus! {

/// A character of the text form of a generated identifier: a lowercase
/// hexadecimal digit or a hyphen.
pub open spec fn is_stem_char(c: char) -> bool {
    c == '-' || ('0' <= c && c <= '9') || ('a' <= c && c <= 'f')
}

/// The text form of a generated identifier: 36 characters, each a lowercase
/// hexadecimal digit or a hyphen.
pub open spec fn is_stem(s: Seq<char>) -> bool {
    s.len() == 36 && forall|i: int| 0 <= i < s.len() ==> is_stem_char(#[trigger] s[i])
}

/// A well-formed staged-file name: a generated stem followed by the fixed
/// audio-container extension.
pub open spec fn is_staged_name(s: Seq<char>) -> bool {
    &&& s.len() == 41
    &&& is_stem(s.subrange(0, 36))
    &&& s.subrange(36, 41) == ".webm"@
}

/// Relies on uuid::Uuid::new_v4 and the Display form of uuid::Uuid: the
/// hyphenated text of a fresh random identifier, 36 characters, each a
/// lowercase hexadecimal digit or a hyphen.  The identifier is random, so
/// nothing relates two calls.
#[verifier::external_body]
fn fresh_stem() -> (r: String)
    ensures
        is_stem(r@),
{
    uuid::Uuid::new_v4().to_string()
}

/// Returns a freshly generated staged-file name: a new random stem with the
/// fixed audio-container extension.
pub fn fresh_staged_name() -> (r: String)
    ensures
        is_staged_name(r@),
{
    let mut name = fresh_stem();
    let ghost stem_view = name@;
    name.append(".webm");
    proof {
        assert(name@.subrange(0, 36) =~= stem_view);
        assert(name@.subrange(36, 41) =~= ".webm"@) by {
            reveal_strlit(".webm");
        }
        assert(name@.len() == 41) by {
            reveal_strlit(".webm");
        }
    }
    name
}

/// The request sent to the engine for one staged file: the file name
/// followed by one line terminator.
pub fn request_line(name: &str) -> (r: String)
    ensures
        r@ == name@.push('\n'),
{
    let mut r = String::from_str(name);
    r.append("\n");
    proof {
        reveal_strlit("\n");
        assert(r@ =~= name@.push('\n'));
    }
    r
}

/// Every well-formed staged-file name is a single protocol line: none of its
/// characters is the line terminator, so the engine reads the whole name as
/// one request.
pub proof fn lemma_staged_name_single_line(s: Seq<char>)
    requires
        is_staged_name(s),
    ensures
        forall|i: int| 0 <= i < s.len() ==> #[trigger] s[i] != '\n',
{
    reveal_strlit(".webm");
    assert forall|i: int| 0 <= i < s.len() implies #[trigger] s[i] != '\n' by {
        if i < 36 {
            assert(s.subrange(0, 36)[i] == s[i]);
            assert(is_stem_char(s[i]));
        } else {
            assert(s.subrange(36, 41)[i - 36] == s[i]);
        }
    }
}

} // verus!
