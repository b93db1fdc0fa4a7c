//! Image references of the form `image:tag`.

use vstd::prelude::*;

use crate::error::ImageParseError;
use crate::strings::find_char;

verus! {

/// The tag appended to a reference that names none.
pub open spec fn latest_suffix() -> Seq<char> {
    seq![':', 'l', 'a', 't', 'e', 's', 't']
}

/// What a non-empty reference becomes: split at its first `:`, both parts
/// must be non-empty and the reference stays as it is; without a `:` it gets
/// the tag `latest`. `None` when one of the two parts is empty.
pub open spec fn spec_image_tag(input: Seq<char>) -> Option<Seq<char>> {
    match input.index_of_first(':') {
        Some(i) => if i == 0 || i + 1 == input.len() {
            None
        } else {
            Some(input)
        },
        None => Some(input + latest_suffix()),
    }
}

/// What `parse_image_tag` gives for `input`: the empty reference is refused as
/// missing, a reference with an empty part as invalid (holding the reference),
/// and any other is normalised by `spec_image_tag`.
pub open spec fn image_tag_outcome(input: Seq<char>, res: Result<String, ImageParseError>) -> bool {
    match res {
        Ok(s) => input.len() > 0 && spec_image_tag(input) == Some(s@),
        Err(ImageParseError::EmptyImage) => input.len() == 0,
        Err(ImageParseError::EmptyPart(s)) => input.len() > 0 && spec_image_tag(input) is None && s@
            == input,
    }
}

/// `parse_image_tag` refuses `input`.
pub open spec fn image_tag_refused(input: Seq<char>) -> bool {
    input.len() == 0 || spec_image_tag(input) is None
}

/// Normalises an image reference to `image:tag`, adding `:latest` where no tag
/// is given.
pub fn parse_image_tag(input: String) -> (res: Result<String, ImageParseError>)
    ensures
        image_tag_outcome(input@, res),
        res is Err <==> image_tag_refused(input@),
{
    if input.as_str().is_empty() {
        return Err(ImageParseError::EmptyImage);
    }
    let found = find_char(input.as_str(), ':');
    match found {
        Some(i) => {
            let n = input.as_str().unicode_len();
            if i == 0 || i + 1 == n {
                Err(ImageParseError::EmptyPart(input))
            } else {
                Ok(input)
            }
        },
        None => {
            let out = input.concat(":latest");
            proof {
                reveal_strlit(":latest");
                assert(":latest"@ =~= latest_suffix());
            }
            Ok(out)
        },
    }
}


/// A normalised reference is a fixed point: normalising it again gives it back
/// unchanged. It splits at its first `:` into a non-empty image and a non-empty
/// tag, and it starts with the reference it was made from.
pub proof fn lemma_image_tag_normal_form(input: Seq<char>)
    requires
        input.len() > 0,
        spec_image_tag(input) is Some,
    ensures
        ({
            let out = spec_image_tag(input).unwrap();
            &&& spec_image_tag(out) == Some(out)
            &&& out.index_of_first(':') matches Some(i) && 0 < i && i + 1 < out.len()
            &&& out.subrange(0, input.len() as int) == input
        }),
{
    input.index_of_first_ensures(':');
    let out = spec_image_tag(input).unwrap();
    if input.index_of_first(':') is None {
        assert(out == input + latest_suffix());
        assert(out[input.len() as int] == ':');
        out.index_of_first_ensures(':');
        let idx = out.index_of_first(':').unwrap();
        if idx < input.len() {
            assert(out[idx] == input[idx]);
        }
        assert(idx == input.len());
        assert(out.subrange(0, input.len() as int) =~= input);
    } else {
        assert(out.subrange(0, input.len() as int) =~= input);
    }
}


/// What `parse_image_tag` answers, by the position of the first `:`: the empty
/// reference is missing; a reference whose first `:` has text on both sides is
/// accepted unchanged, whatever the tag holds; one without a `:` gets
/// `:latest`; one whose first `:` opens or ends it is invalid and the error
/// holds it.
pub proof fn lemma_image_tag_by_first_colon(input: Seq<char>, res: Result<String, ImageParseError>)
    requires
        image_tag_outcome(input, res),
    ensures
        input.len() == 0 ==> res matches Err(ImageParseError::EmptyImage),
        forall|i: int|
            0 < i && i + 1 < input.len() && input[i] == ':' && (forall|j: int|
                0 <= j < i ==> input[j] != ':') ==> (res matches Ok(s) && s@ == input),
        input.len() > 0 && (forall|j: int| 0 <= j < input.len() ==> input[j] != ':') ==> (res matches Ok(
            s,
        ) && s@ == input + seq![':', 'l', 'a', 't', 'e', 's', 't']),
        forall|i: int|
            0 <= i < input.len() && (i == 0 || i + 1 == input.len()) && input[i] == ':' && (forall|
                j: int,
            | 0 <= j < i ==> input[j] != ':') ==> (res matches Err(ImageParseError::EmptyPart(s))
                && s@ == input),
{
    input.index_of_first_ensures(':');
    assert forall|i: int|
        0 <= i < input.len() && input[i] == ':' && (forall|j: int| 0 <= j < i ==> input[j] != ':')
            implies input.index_of_first(':') == Some(i) by {
        let idx = input.index_of_first(':').unwrap();
        if idx < i {
            assert(input[idx] != ':');
        }
        if i < idx {
            assert(input[i] != ':');
        }
    }
    if input.len() > 0 && (forall|j: int| 0 <= j < input.len() ==> input[j] != ':') {
        if input.contains(':') {
            let k = choose|k: int| 0 <= k < input.len() && input[k] == ':';
            assert(input[k] != ':');
        }
    }
}

} // verus!
