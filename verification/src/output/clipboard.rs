//! The prompt that introduces a recording to a language model.
use vstd::prelude::*;

verus! {

/// The text before the video's path in the prompt.
pub open spec fn prompt_head() -> Seq<char> {
    "I recorded a video of a feature implementation. Please analyze this recording:\n\nVideo path: "@
}

/// The text after the video's path in the prompt.
pub open spec fn prompt_tail() -> Seq<char> {
    "\n\nThe video shows my web application running in Chrome. Please:\n1. Describe what you observe in the UI\n2. Identify any potential UX improvements\n3. Note any bugs or unexpected behavior\n\n[Attach the video file to your message]\n"@
}

/// A prompt, ready to paste, that asks a language model to analyse the
/// recording saved at `path`: the fixed request with the path in its place.
pub fn generate_llm_prompt(path: &str) -> (r: String)
    ensures
        r@ == prompt_head() + path@ + prompt_tail(),
{
    let mut s = String::from_str(
        "I recorded a video of a feature implementation. Please analyze this recording:\n\nVideo path: ",
    );
    s.append(path);
    s.append(
        "\n\nThe video shows my web application running in Chrome. Please:\n1. Describe what you observe in the UI\n2. Identify any potential UX improvements\n3. Note any bugs or unexpected behavior\n\n[Attach the video file to your message]\n",
    );
    s
}

/// The prompt names the recording: its path occurs in it.
pub proof fn law_prompt_contains_path(path: Seq<char>)
    ensures
        crate::text::contains_seq(prompt_head() + path + prompt_tail(), path),
{
    let p = prompt_head() + path + prompt_tail();
    let i = prompt_head().len() as int;
    assert(p.subrange(i, i + path.len()) =~= path);
}

/// Different recordings get different prompts: the path can be read back
/// from the prompt.
pub proof fn law_prompt_determines_path(p1: Seq<char>, p2: Seq<char>)
    requires
        prompt_head() + p1 + prompt_tail() == prompt_head() + p2 + prompt_tail(),
    ensures
        p1 == p2,
{
    let a = prompt_head() + p1 + prompt_tail();
    let b = prompt_head() + p2 + prompt_tail();
    let i = prompt_head().len() as int;
    assert(a.len() == b.len());
    assert(a.subrange(i, i + p1.len()) =~= p1);
    assert(b.subrange(i, i + p2.len()) =~= p2);
}

} // verus!
