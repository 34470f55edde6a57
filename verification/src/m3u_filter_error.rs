use vstd::prelude::*;

use crate::text_util::opt_string_view;

verus! {

/// Severity of an error raised while processing upstream playlists.
/// `Info` errors only halt the affected pass; `Notify` errors are in
/// addition forwarded to the operator notification channel.
#[derive(Debug, Clone, Copy, PartialEq, Eq, Structural)]
pub enum M3uFilterErrorKind {
    Info,
    Notify,
}

/// An error produced while preparing configuration or normalizing
/// upstream payloads.
#[derive(Debug)]
pub struct M3uFilterError {
    pub kind: M3uFilterErrorKind,
    pub message: String,
}

impl M3uFilterError {
    pub fn new(kind: M3uFilterErrorKind, message: String) -> (r: M3uFilterError)
        ensures
            r.kind == kind,
            r.message@ == message@,
    {
        M3uFilterError { kind, message }
    }

    /// The human-readable form of the error; stands in for `Display`.
    pub fn display_message(&self) -> (r: String)
        ensures
            r@ == "M3uFilter error: "@ + self.message@,
    {
        let mut s = String::from_str("M3uFilter error: ");
        s.append(self.message.as_str());
        s
    }
}

/// The messages of the notify-worthy errors, in order.
pub open spec fn notify_msgs(errs: Seq<M3uFilterError>) -> Seq<Seq<char>>
    decreases errs.len(),
{
    if errs.len() == 0 {
        Seq::empty()
    } else {
        let pre = notify_msgs(errs.subrange(0, errs.len() - 1));
        if errs[errs.len() - 1].kind == M3uFilterErrorKind::Notify {
            pre.push(errs[errs.len() - 1].message@)
        } else {
            pre
        }
    }
}

/// Lines joined with a line feed between them.
pub open spec fn join_lines(msgs: Seq<Seq<char>>) -> Seq<char>
    decreases msgs.len(),
{
    if msgs.len() == 0 {
        Seq::empty()
    } else if msgs.len() == 1 {
        msgs[0]
    } else {
        join_lines(msgs.subrange(0, msgs.len() - 1)) + seq!['\n'] + msgs[msgs.len() - 1]
    }
}

/// The operator notification for a batch of errors: nothing when the
/// batch is empty, the joined notify-worthy messages otherwise,
/// shortened to `size` characters plus an ellipsis when a positive
/// bound is exceeded.
pub open spec fn notify_message_spec(errs: Seq<M3uFilterError>, size: int) -> Option<Seq<char>> {
    if errs.len() == 0 {
        Option::None
    } else {
        let text = join_lines(notify_msgs(errs));
        let floor = if size - 3 > 3 {
            size - 3
        } else {
            3
        };
        if size > 0 && text.len() > floor {
            let cut = if size <= text.len() {
                size
            } else {
                text.len() as int
            };
            Option::Some(text.subrange(0, cut) + "..."@)
        } else {
            Option::Some(text)
        }
    }
}

/// Builds the notification text for a batch of errors.
pub fn get_notify_message(errors: &Vec<M3uFilterError>, size: usize) -> (r: Option<String>)
    ensures
        opt_string_view(r) == notify_message_spec(errors@, size as int),
{
    if errors.is_empty() {
        return None;
    }
    let n = errors.len();
    let mut msgs: Vec<String> = Vec::new();
    let mut i: usize = 0;
    proof {
        assert(errors@.subrange(0, 0) =~= Seq::<M3uFilterError>::empty());
        assert(crate::text_util::strings_view(msgs@) =~= notify_msgs(
            errors@.subrange(0, 0),
        ));
    }
    while i < n
        invariant
            i <= n,
            n == errors@.len(),
            crate::text_util::strings_view(msgs@) == notify_msgs(
                errors@.subrange(0, i as int),
            ),
        decreases n - i,
    {
        proof {
            assert(errors@.subrange(0, i + 1).subrange(0, i as int) =~= errors@.subrange(
                0,
                i as int,
            ));
            assert(errors@.subrange(0, i + 1)[i as int] == errors@[i as int]);
        }
        match errors[i].kind {
            M3uFilterErrorKind::Notify => {
                msgs.push(errors[i].message.clone());
            },
            M3uFilterErrorKind::Info => {},
        }
        proof {
            assert(crate::text_util::strings_view(msgs@) =~= notify_msgs(
                errors@.subrange(0, i + 1),
            ));
        }
        i += 1;
    }
    proof {
        assert(errors@.subrange(0, n as int) =~= errors@);
    }
    let m = msgs.len();
    let mut text = String::new();
    let mut j: usize = 0;
    proof {
        assert(crate::text_util::strings_view(msgs@).subrange(0, 0) =~= Seq::<
            Seq<char>,
        >::empty());
        assert(text@ =~= join_lines(
            crate::text_util::strings_view(msgs@).subrange(0, 0),
        ));
    }
    while j < m
        invariant
            j <= m,
            m == msgs@.len(),
            crate::text_util::strings_view(msgs@) == notify_msgs(errors@),
            text@ == join_lines(
                crate::text_util::strings_view(msgs@).subrange(0, j as int),
            ),
        decreases m - j,
    {
        proof {
            let sv = crate::text_util::strings_view(msgs@);
            assert(sv.subrange(0, j + 1).subrange(0, j as int) =~= sv.subrange(0, j as int));
            assert(sv.subrange(0, j + 1)[j as int] == msgs@[j as int]@);
        }
        if j > 0 {
            crate::text_util::push_char(&mut text, '\n');
        }
        text.append(msgs[j].as_str());
        proof {
            let sv = crate::text_util::strings_view(msgs@);
            assert(text@ =~= join_lines(sv.subrange(0, j + 1)));
        }
        j += 1;
    }
    proof {
        let sv = crate::text_util::strings_view(msgs@);
        assert(sv.subrange(0, m as int) =~= sv);
    }
    let text_len = text.as_str().unicode_len();
    let floor: usize = if size >= 7 {
        size - 3
    } else {
        3
    };
    if size > 0 && text_len > floor {
        let cut: usize = if size <= text_len {
            size
        } else {
            text_len
        };
        let head = text.as_str().substring_char(0, cut);
        let mut out = String::from_str(head);
        out.append("...");
        proof {
            assert(out@ =~= notify_message_spec(errors@, size as int)->Some_0);
        }
        Some(out)
    } else {
        Some(text)
    }
}

} // verus!
