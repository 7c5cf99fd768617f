//! The request to the text generator and what is kept of its answer.

use crate::members::{members_view, names_of};
use crate::text::{join, trim, trimmed};
use vstd::prelude::*;
use vstd::string::*;

verus! {

/// The model that writes the greeting.
pub open spec fn model_name_text() -> Seq<char> {
    "llama3"@
}

/// Names the model that writes the greeting.
pub fn model_name() -> (name: String)
    ensures
        name@ == model_name_text(),
{
    String::from_str("llama3")
}

/// The prompt: the fixed instruction with the names, joined by a comma and
/// a blank, and the weather in their places.
pub open spec fn prompt_text(names: Seq<Seq<char>>, weather: Seq<char>) -> Seq<char> {
    "Create a kawaii, uwu and cute morning greeting in Russian, including information about the weather for the day for: "@
        + join(names, ", "@) + ". Weather: "@ + weather
        + ". Include a suggestion on how to dress appropriately for the weather and etc. The response should be a direct greeting, without any explanations or additional details."@
}

/// Writes the prompt for the members and the weather of the day.
pub fn build_prompt(members: &[(String, u64)], weather_info: &str) -> (prompt: String)
    ensures
        prompt@ == prompt_text(names_of(members_view(members@)), weather_info@),
{
    let ghost names = names_of(members_view(members@));
    let ghost opening =
        "Create a kawaii, uwu and cute morning greeting in Russian, including information about the weather for the day for: "@;
    let mut prompt = String::from_str(
        "Create a kawaii, uwu and cute morning greeting in Russian, including information about the weather for the day for: ",
    );
    let n = members.len();
    let mut i: usize = 0;
    assert(names.subrange(0, 0) =~= Seq::<Seq<char>>::empty());
    assert(prompt@ =~= opening + join(names.subrange(0, 0), ", "@));
    while i < n
        invariant
            i <= n,
            n == members@.len(),
            names == names_of(members_view(members@)),
            prompt@ == opening + join(names.subrange(0, i as int), ", "@),
        decreases n - i,
    {
        let ghost done = join(names.subrange(0, i as int), ", "@);
        if i > 0 {
            prompt.append(", ");
        }
        prompt.append(members[i].0.as_str());
        proof {
            let next = names.subrange(0, i + 1);
            assert(next.drop_last() =~= names.subrange(0, i as int));
            assert(next.last() == members@[i as int].0@);
            if i > 0 {
                assert(prompt@ =~= opening + (done + ", "@ + next.last()));
            } else {
                assert(done =~= Seq::<char>::empty());
                assert(prompt@ =~= opening + next.last());
            }
        }
        i += 1;
    }
    assert(names.subrange(0, n as int) =~= names);
    prompt.append(". Weather: ");
    prompt.append(weather_info);
    prompt.append(
        ". Include a suggestion on how to dress appropriately for the weather and etc. The response should be a direct greeting, without any explanations or additional details.",
    );
    prompt
}

/// Keeps of the generator's answer what stands between the white space
/// around it. An answer of white space alone gives the empty greeting.
pub fn finish_greeting(response: &str) -> (greeting: String)
    ensures
        greeting@ == trimmed(response@),
{
    String::from_str(trim(response))
}

} // verus!
