use vstd::prelude::*;

use crate::leak::{
    capped, lemma_capped_step, lemma_leaker_pending_capped, str_views, warning_due_in, warnings_for,
    Leaker, VecLeaker,
};
use crate::signature::strings_view;

verus! {

/// What an event's message is.
#[derive(Clone, Copy, Debug, PartialEq, Eq, Structural)]
pub enum MessageKind {
    /// No message.
    NoMessage,
    /// Any object, logged as it is.
    Any,
    /// A string formatted with `%` and the given arguments, when the event is logged.
    PercentFormatted,
}

/// Why an event's message is refused; Python sees a `TypeError`.
#[derive(Clone, Copy, Debug, PartialEq, Eq, Structural)]
pub enum MessageError {
    /// `fmt_args` came without a message.
    MissingMessage,
    /// `fmt_args` came with a message that is not a string.
    NotAString,
}

impl MessageError {
    /// The text of the error; for `NotAString` the reason of the failed cast follows it.
    pub fn message(self) -> (r: &'static str)
        ensures
            r@ == match self {
                MessageError::MissingMessage => "a message string must be passed when using fmt_args"@,
                MessageError::NotAString => "if fmt_args is passed, the first argument must be a string: "@,
            },
    {
        match self {
            MessageError::MissingMessage => "a message string must be passed when using fmt_args",
            MessageError::NotAString => "if fmt_args is passed, the first argument must be a string: ",
        }
    }
}

/// The kind of an event's message, from whether a message was passed, whether it is a string
/// (asked only with `fmt_args`), and whether `fmt_args` was passed.
pub open spec fn spec_message_kind(has_message: bool, message_is_str: bool, has_fmt_args: bool) -> Result<
    MessageKind,
    MessageError,
> {
    if has_fmt_args {
        if !has_message {
            Err(MessageError::MissingMessage)
        } else if !message_is_str {
            Err(MessageError::NotAString)
        } else {
            Ok(MessageKind::PercentFormatted)
        }
    } else if has_message {
        Ok(MessageKind::Any)
    } else {
        Ok(MessageKind::NoMessage)
    }
}

/// Decides what an event's message is: with `fmt_args` it must be a string, which is formatted
/// lazily; without, any object (or nothing) is the message.
pub fn message_kind(has_message: bool, message_is_str: bool, has_fmt_args: bool) -> (r: Result<
    MessageKind,
    MessageError,
>)
    ensures
        r == spec_message_kind(has_message, message_is_str, has_fmt_args),
{
    if has_fmt_args {
        if !has_message {
            Err(MessageError::MissingMessage)
        } else if !message_is_str {
            Err(MessageError::NotAString)
        } else {
            Ok(MessageKind::PercentFormatted)
        }
    } else if has_message {
        Ok(MessageKind::Any)
    } else {
        Ok(MessageKind::NoMessage)
    }
}

/// The keyword argument names of an event, interned, in the order passed.
pub fn leak_or_get_kwargs(leaker: &mut Leaker, kwarg_names: Vec<String>) -> (r: Vec<&'static str>)
    ensures
        str_views(r@) == strings_view(kwarg_names@),
        final(leaker)@ == old(leaker)@.union(strings_view(kwarg_names@).to_set()),
        final(leaker).pending_warnings() == capped(
            old(leaker).pending_warnings() + warnings_for(old(leaker)@, strings_view(kwarg_names@)),
        ),
{
    let ghost all = strings_view(kwarg_names@);
    let mut fields: Vec<&'static str> = Vec::new();
    let mut i: usize = 0;
    proof {
        lemma_leaker_pending_capped(*leaker);
    }
    while i < kwarg_names.len()
        invariant
            i <= kwarg_names@.len(),
            all == strings_view(kwarg_names@),
            all.len() == kwarg_names@.len(),
            str_views(fields@) == all.take(i as int),
            leaker@ == old(leaker)@.union(all.take(i as int).to_set()),
            leaker.pending_warnings() == capped(
                old(leaker).pending_warnings() + warnings_for(old(leaker)@, all.take(i as int)),
            ),
        decreases kwarg_names.len() - i,
    {
        let ghost before = fields@;
        let ghost pending_before = leaker.pending_warnings();
        let ghost set_before = leaker@;
        proof {
            assert(all.take(i as int + 1).drop_last() =~= all.take(i as int));
            assert(all.take(i as int + 1).last() == all[i as int]);
            assert(all[i as int] == kwarg_names@[i as int]@);
        }
        let name = leaker.leak_or_get(kwarg_names[i].clone());
        proof {
            let d: nat = if warning_due_in(set_before, all[i as int]) {
                1nat
            } else {
                0nat
            };
            lemma_capped_step(
                old(leaker).pending_warnings() + warnings_for(old(leaker)@, all.take(i as int)),
                d,
            );
        }
        fields.push(name);
        proof {
            assert(all[i as int] == kwarg_names@[i as int]@);
            assert(all.take(i as int + 1) =~= all.take(i as int).push(all[i as int]));
            assert(str_views(fields@) =~= str_views(before).push(name@));
            all.take(i as int).lemma_push_to_set_commute(all[i as int]);
            assert(leaker@ =~= old(leaker)@.union(all.take(i as int + 1).to_set()));
        }
        i = i + 1;
    }
    assert(all.take(i as int) =~= all);
    fields
}

/// The fields of an event: `message` first where there is a message, then the keyword names.
pub open spec fn spec_event_fields(kwarg_names: Seq<Seq<char>>, has_message: bool) -> Seq<Seq<char>> {
    if has_message {
        seq!["message"@] + kwarg_names
    } else {
        kwarg_names
    }
}

/// The interned list of an event's fields.
pub fn event_fields(
    leaker: &mut Leaker,
    vec_leaker: &mut VecLeaker,
    kwarg_names: Vec<String>,
    has_message: bool,
) -> (r: &'static [&'static str])
    ensures
        str_views(r@) == spec_event_fields(strings_view(kwarg_names@), has_message),
        final(leaker)@ == old(leaker)@.union(strings_view(kwarg_names@).to_set()),
        final(vec_leaker)@ == old(vec_leaker)@.insert(
            spec_event_fields(strings_view(kwarg_names@), has_message),
        ),
        final(leaker).pending_warnings() == capped(
            old(leaker).pending_warnings() + warnings_for(old(leaker)@, strings_view(kwarg_names@)),
        ),
        final(vec_leaker).pending_warnings() == capped(
            old(vec_leaker).pending_warnings() + if warning_due_in(
                old(vec_leaker)@,
                spec_event_fields(strings_view(kwarg_names@), has_message),
            ) {
                1nat
            } else {
                0nat
            },
        ),
{
    let ghost names = strings_view(kwarg_names@);
    let mut fields = leak_or_get_kwargs(leaker, kwarg_names);
    if has_message {
        let ghost before = fields@;
        fields.insert(0, "message");
        assert(str_views(fields@) =~= seq!["message"@] + str_views(before));
    }
    vec_leaker.leak_or_get(fields)
}

} // verus!
