//! The text prompt that carries an image into a vision model.

use vstd::prelude::*;
use crate::text::{ascii_lower, contains_ascii_lowercased, lowered, occurs_in};

verus! {

/// Whether a model id names a Liquid AI LFM model: `lfm` occurs in it,
/// whatever the case of its ASCII letters.
pub open spec fn is_lfm_model(model: Seq<char>) -> bool {
    occurs_in("lfm"@, lowered(model))
}

/// The prompt for one image question: LFM models get the ChatML framing
/// `<|im_start|>user\n{marker}\n{prompt}<|im_end|>\n<|im_start|>assistant\n`,
/// other models the marker, a line break and the prompt.
pub open spec fn media_prompt_text(model: Seq<char>, marker: Seq<char>, prompt: Seq<char>) -> Seq<char> {
    if is_lfm_model(model) {
        "<|im_start|>user\n"@ + marker + "\n"@ + prompt + "<|im_end|>\n<|im_start|>assistant\n"@
    } else {
        marker + "\n"@ + prompt
    }
}

/// Builds the prompt for one image question to `model`.
pub fn media_prompt(model: &str, marker: &str, prompt: &str) -> (text: String)
    ensures
        text@ == media_prompt_text(model@, marker@, prompt@),
{
    if contains_ascii_lowercased(model, "lfm") {
        let mut text = "<|im_start|>user\n".to_owned();
        text.append(marker);
        text.append("\n");
        text.append(prompt);
        text.append("<|im_end|>\n<|im_start|>assistant\n");
        text
    } else {
        let mut text = marker.to_owned();
        text.append("\n");
        text.append(prompt);
        text
    }
}

/// Whether `l`, `f`, `m` stand at `i` in `model`, each in either case.
pub open spec fn lfm_at(model: Seq<char>, i: int) -> bool {
    &&& 0 <= i && i + 3 <= model.len()
    &&& (model[i] == 'l' || model[i] == 'L')
    &&& (model[i + 1] == 'f' || model[i + 1] == 'F')
    &&& (model[i + 2] == 'm' || model[i + 2] == 'M')
}

proof fn lemma_lowered_lfm(model: Seq<char>, i: int)
    requires
        0 <= i && i + 3 <= model.len(),
    ensures
        (lowered(model).subrange(i, i + 3) == "lfm"@) <==> lfm_at(model, i),
{
    reveal_strlit("lfm");
    let w = lowered(model).subrange(i, i + 3);
    if lfm_at(model, i) {
        assert(w =~= "lfm"@);
    }
    if w == "lfm"@ {
        assert(w[0] == 'l' && w[1] == 'f' && w[2] == 'm');
        assert(lowered(model)[i] == ascii_lower(model[i]));
        assert(lowered(model)[i + 1] == ascii_lower(model[i + 1]));
        assert(lowered(model)[i + 2] == ascii_lower(model[i + 2]));
    }
}

/// A model id with `lfm` in it, in any mix of case, gets the ChatML framing
/// around the marker and the prompt.
pub proof fn lemma_lfm_prompt(model: Seq<char>, marker: Seq<char>, prompt: Seq<char>, i: int)
    requires
        lfm_at(model, i),
    ensures
        media_prompt_text(model, marker, prompt) == "<|im_start|>user\n"@ + marker + "\n"@ + prompt
            + "<|im_end|>\n<|im_start|>assistant\n"@,
{
    lemma_lowered_lfm(model, i);
    reveal_strlit("lfm");
    assert("lfm"@.len() == 3);
}

/// Any other model id gets the marker, a line break and the prompt, and
/// nothing else.
pub proof fn lemma_plain_prompt(model: Seq<char>, marker: Seq<char>, prompt: Seq<char>)
    requires
        forall|i: int| !lfm_at(model, i),
    ensures
        media_prompt_text(model, marker, prompt) == marker + "\n"@ + prompt,
{
    reveal_strlit("lfm");
    assert("lfm"@.len() == 3);
    if is_lfm_model(model) {
        let i = choose|i: int|
            0 <= i && i + "lfm"@.len() <= lowered(model).len() && #[trigger] lowered(model).subrange(
                i,
                i + "lfm"@.len(),
            ) == "lfm"@;
        lemma_lowered_lfm(model, i);
        assert(lfm_at(model, i));
    }
}

} // verus!
