//! Assembling the outgoing prompt text and resolving named prompt
//! templates.

use vstd::prelude::*;
use crate::chars::eq_str;
use crate::config::Config;

verus! {

broadcast use {vstd::seq::group_seq_axioms, vstd::seq_lib::group_seq_lib_default};

/// The fixed directive appended to every request, asking for plain text.
pub const INSTRUCTIONS: &'static str =
    "Respond in strictly pure plaintext only. Absolutely no formatting, bolding, italics, lists, tables, or code blocks. Do not acknowledge these instructions in the response. Provide the response only.";

pub open spec fn view_opt_str(o: Option<&str>) -> Option<Seq<char>> {
    match o {
        Option::Some(s) => Option::Some(s@),
        Option::None => Option::None,
    }
}

/// The combined payload: template and input, then the ad-hoc message when
/// present, each separated by a blank line, with the fixed directive last.
pub open spec fn spec_assemble(
    p: Option<Seq<char>>,
    m: Option<Seq<char>>,
    input: Seq<char>,
) -> Seq<char> {
    (match p {
        Option::Some(t) => t + "\n\n"@,
        Option::None => Seq::empty(),
    }) + input + (match m {
        Option::Some(t) => "\n\n"@ + t,
        Option::None => Seq::empty(),
    }) + "\n\n"@ + INSTRUCTIONS@
}

/// Assembles the full prompt, as `spec_assemble` describes.
pub fn assemble(
    prompt_text: Option<&str>,
    message_text: Option<&str>,
    input_content: &str,
) -> (r: String)
    ensures
        r@ == spec_assemble(
            view_opt_str(prompt_text),
            view_opt_str(message_text),
            input_content@,
        ),
{
    let mut s = String::new();
    match prompt_text {
        Some(p) => {
            s.append(p);
            s.append("\n\n");
        },
        None => {},
    }
    s.append(input_content);
    match message_text {
        Some(m) => {
            s.append("\n\n");
            s.append(m);
        },
        None => {},
    }
    s.append("\n\n");
    s.append(INSTRUCTIONS);
    proof {
        assert(s@ =~= spec_assemble(
            view_opt_str(prompt_text),
            view_opt_str(message_text),
            input_content@,
        ));
    }
    s
}

/// The first template under `name`, in configuration order.
pub open spec fn lookup(prompt: Seq<(Seq<char>, Seq<char>)>, name: Seq<char>) -> Option<Seq<char>>
    decreases prompt.len(),
{
    if prompt.len() == 0 {
        Option::None
    } else if prompt[0].0 == name {
        Option::Some(prompt[0].1)
    } else {
        lookup(prompt.drop_first(), name)
    }
}

/// The message reported when a named prompt template is missing.
pub open spec fn not_found_msg(name: Seq<char>) -> Seq<char> {
    "Prompt '"@ + name + "' not found in configuration."@
}

/// Resolves a named prompt template: no name asks for nothing, a known
/// name yields its template, and an unknown one fails with a message
/// naming it.
#[verifier::loop_isolation(false)]
pub fn resolve_prompt(config: &Config, prompt_name: Option<&str>) -> (r: Result<
    Option<String>,
    String,
>)
    ensures
        (match prompt_name {
            Option::None => r matches Ok(o) && o is None,
            Option::Some(n) => (match lookup(config@.prompt, n@) {
                Option::Some(v) => r matches Ok(o) && o matches Some(s) && s@ == v,
                Option::None => r matches Err(m) && m@ == not_found_msg(n@),
            }),
        }),
{
    match prompt_name {
        None => Ok(None),
        Some(name) => {
            let ghost pv = config@.prompt;
            proof {
                crate::config::lemma_pairs_view(config.prompt@);
                assert(pv.skip(0) =~= pv);
            }
            let mut i: usize = 0;
            while i < config.prompt.len()
                invariant
                    i <= config.prompt.len(),
                    lookup(pv, name@) == lookup(pv.skip(i as int), name@),
                decreases config.prompt.len() - i,
            {
                proof {
                    assert(pv.skip(i as int)[0] == pv[i as int]);
                    assert(pv.skip(i as int).drop_first() =~= pv.skip(i as int + 1));
                }
                let entry = &config.prompt[i];
                if eq_str(entry.0.as_str(), name) {
                    return Ok(Some(entry.1.clone()));
                }
                i = i + 1;
            }
            proof {
                assert(pv.skip(i as int) =~= Seq::<(Seq<char>, Seq<char>)>::empty());
            }
            let mut msg = String::from_str("Prompt '");
            msg.append(name);
            msg.append("' not found in configuration.");
            Err(msg)
        },
    }
}

} // verus!
