//! How a request to send is read and how a refused one is answered.
use vstd::prelude::*;

use crate::cli::SendArgs;
use crate::error::ErrorCode;
use crate::laws::display;
use crate::model;
use crate::names;
use crate::outside;
use crate::send;
use crate::text;

verus! {

/// A member of an object is found by its name; the first of that name counts.
pub proof fn members_are_found_by_name(
    name: Seq<char>,
    value: Option<Seq<char>>,
    rest: Seq<(Seq<char>, Option<Seq<char>>)>,
    wanted: Seq<char>,
)
    ensures
        send::string_member(seq![], wanted) is None,
        name == wanted ==> send::string_member(seq![(name, value)] + rest, wanted) == value,
        name != wanted ==> send::string_member(seq![(name, value)] + rest, wanted)
            == send::string_member(rest, wanted),
{
    assert((seq![(name, value)] + rest).skip(1) =~= rest);
}

/// A body is warned of exactly when one of its lines is an event of a watch.
pub proof fn bodies_are_searched_line_by_line(body: Seq<char>)
    ensures
        send::holds_watch_event(body) <==> exists|i: int|
            0 <= i < text::lines(body).len() && (outside::json_object_strings(
                #[trigger] text::lines(body)[i],
            ) matches Some(members) && send::watch_event(members)),
{
    if send::holds_watch_event(body) {
        let i = choose|i: int|
            0 <= i < text::lines(body).len() && send::watch_event_line(
                #[trigger] text::lines(body)[i],
            );
        assert(outside::json_object_strings(text::lines(body)[i]) is Some);
    }
    if exists|i: int|
        0 <= i < text::lines(body).len() && (outside::json_object_strings(
            #[trigger] text::lines(body)[i],
        ) matches Some(members) && send::watch_event(members)) {
        let i = choose|i: int|
            0 <= i < text::lines(body).len() && (outside::json_object_strings(
                #[trigger] text::lines(body)[i],
            ) matches Some(members) && send::watch_event(members));
        assert(send::watch_event_line(text::lines(body)[i]));
    }
}

/// A refused request is answered with the command that was meant, with its recipient, its sender,
/// its kind, its subject and its flags as they were given.
pub proof fn answers_repeat_the_command(args: SendArgs)
    ensures
        text::has_prefix(send::fix_prefix(args), "post send --to "@ + names::quoted(args.to@)),
        args.sender matches Some(sender) ==> text::has_part(
            send::fix_prefix(args),
            " --from "@ + names::quoted(sender@),
        ),
        text::has_part(send::fix_prefix(args), args.kind.name()),
        args.subject@.len() > 0 ==> text::has_part(
            send::fix_prefix(args),
            " --subject "@ + names::quoted(args.subject@),
        ),
        args.oversize ==> text::has_part(send::fix_prefix(args), " --oversize"@),
        args.allow_self ==> text::has_suffix(send::fix_prefix(args), " --allow-self"@),
{
    let a = "post send --to "@ + names::quoted(args.to@);
    let b = match args.sender {
        Some(sender) => " --from "@ + names::quoted(sender@),
        None => ""@,
    };
    let c = if args.subject@.len() > 0 {
        " --subject "@ + names::quoted(args.subject@)
    } else {
        ""@
    };
    let d = if args.oversize {
        " --oversize"@
    } else {
        ""@
    };
    let e = if args.allow_self {
        " --allow-self"@
    } else {
        ""@
    };
    display::put_behind(a, b);
    display::put_behind(a + b, " --kind "@);
    display::put_behind(a + b + " --kind "@, args.kind.name());
    let f = a + b + " --kind "@ + args.kind.name();
    display::put_behind(f, c);
    display::put_behind(f + c, d);
    display::put_behind(f + c + d, e);
}

/// Refusals carry what they are about: the name that would write to itself, the unknown recipient
/// and the room that was perhaps meant, the route with its rule and the rule's reason.
pub proof fn refusals_carry_what_they_are_about(
    name: Seq<char>,
    other: Seq<char>,
    prefix: Seq<char>,
    room: Seq<char>,
    rule: model::RuleView,
    path: Seq<char>,
)
    ensures
        send::self_send_error(name, prefix).code == ErrorCode::InvalidArgument,
        send::self_send_error(name, prefix).details.input == Some(name),
        send::self_send_error(name, prefix).details.exact_fix == Some(
            prefix + " --allow-self --body '<text>'"@,
        ),
        send::unknown_recipient_error(name, None).code == ErrorCode::UnknownRoom,
        send::unknown_recipient_error(name, None).details.input == Some(name),
        send::unknown_recipient_error(name, None).details.did_you_mean is None,
        send::unknown_recipient_error(name, Some(room)).code == ErrorCode::UnknownRoom,
        send::unknown_recipient_error(name, Some(room)).details.input == Some(name),
        send::unknown_recipient_error(name, Some(room)).details.did_you_mean == Some(room),
        send::blocked_route_error(name, other, rule).code == ErrorCode::BlockedRoute,
        send::blocked_route_error(name, other, rule).details.rule == Some(rule),
        send::blocked_route_error(name, other, rule).details.reason == Some(rule.reason),
        send::blocked_route_error(name, other, rule).details.input == Some(
            name + " -> "@ + other,
        ),
        send::missing_body_error(prefix, path).code == ErrorCode::InvalidArgument,
        send::missing_body_error(prefix, path).details.path == Some(path),
        send::missing_body_error(prefix, path).details.exact_fix == Some(
            prefix + " --body "@ + names::quoted(path),
        ),
        send::empty_body_error(prefix).code == ErrorCode::EmptyBody,
        send::empty_body_error(prefix).details.exact_fix == Some(prefix + " --body '<text>'"@),
        send::large_body_error(name).code == ErrorCode::InvalidArgument,
        send::long_subject_error(name).code == ErrorCode::InvalidArgument,
        send::bad_pin_error(name, other).code == ErrorCode::InvalidArgument,
        send::bad_pin_error(name, other).details.input == Some(name),
        send::bad_pin_error(name, other).details.reason == Some(other),
        send::bad_address_error(other).code == ErrorCode::InvalidArgument,
        send::bad_address_error(other).details.reason == Some(other),
{
}

/// A quoted word is what a shell reads back: quotes around it, and each quote in it closed, escaped
/// and opened again.
pub proof fn quotes_are_escaped_one_by_one(c: char, rest: Seq<char>)
    ensures
        names::quote_escaped(seq![]).len() == 0,
        c == '\'' ==> names::quote_escaped(seq![c] + rest) == "'\\''"@ + names::quote_escaped(rest),
        c != '\'' ==> names::quote_escaped(seq![c] + rest) == seq![c] + names::quote_escaped(rest),
        names::quoted(rest) == "'"@ + names::quote_escaped(rest) + "'"@,
{
    assert((seq![c] + rest).skip(1) =~= rest);
}

} // verus!
