//! The interactive client's console commands: one line of input becomes
//! one wire command, or is rejected.
use vstd::prelude::*;
use crate::ws_session::{spec_cmd, spec_payload, split_first_space, trim_chars};
use crate::render::{chars_of, string_of_chars};

verus! {

/// Turn one console line into a wire command: `/join <n>` becomes the
/// `/join` command with its JSON payload; anything else is rejected.
pub fn format_command(line: &str) -> (r: Option<String>)
    ensures
        match r {
            Some(s) => spec_cmd(line@) == "/join"@ && s@ == "/join { \"pub_id\": "@ + spec_payload(
                line@,
            ) + " }"@,
            None => spec_cmd(line@) != "/join"@,
        },
{
    let chars = chars_of(line);
    let t = trim_chars(&chars);
    let (cmd, arg) = split_first_space(&t);
    if crate::json::chars_eq_str(&cmd, "/join") {
        let mut s = String::from_str("/join { \"pub_id\": ");
        let arg_text = string_of_chars(&arg);
        s.append(arg_text.as_str());
        s.append(" }");
        Some(s)
    } else {
        None
    }
}

} // verus!
