//! The client command grammar. A frame whose content starts with `/` is a
//! command, not chat content. A command line is its verb — the first run
//! of non-blank characters — followed by an optional argument, the next
//! run of non-blank characters; blanks are spaces and tabs, and anything
//! after the argument is ignored.

use vstd::prelude::*;
use vstd::string::StrSliceExecFns;
use crate::errors::{ChatError, ChatErrorKind};

verus! {

/// One parsed client command.
#[derive(Debug, Clone)]
pub enum Command {
    Join(String),
    Leave(String),
    Quit,
    ListRooms,
    ListUsers(String),
}

/// A blank, for the purpose of splitting a command line.
pub open spec fn is_blank(c: char) -> bool {
    c == ' ' || c == '\t'
}

/// Length of the leading run of non-blank characters.
pub open spec fn token_len(s: Seq<char>) -> int
    decreases s.len(),
{
    if s.len() == 0 || is_blank(s[0]) {
        0
    } else {
        1 + token_len(s.skip(1))
    }
}

/// Length of the leading run of blank characters.
pub open spec fn blank_len(s: Seq<char>) -> int
    decreases s.len(),
{
    if s.len() == 0 || !is_blank(s[0]) {
        0
    } else {
        1 + blank_len(s.skip(1))
    }
}

/// The command verb: the first token of the line.
pub open spec fn spec_verb(s: Seq<char>) -> Seq<char> {
    s.take(token_len(s))
}

/// The command argument: the second token of the line (empty if none).
pub open spec fn spec_arg(s: Seq<char>) -> Seq<char> {
    let r1 = s.skip(token_len(s));
    let r2 = r1.skip(blank_len(r1));
    r2.take(token_len(r2))
}

/// Whether frame content is a command rather than chat content.
pub open spec fn spec_is_command(s: Seq<char>) -> bool {
    s.len() > 0 && s[0] == '/'
}

/// Whether the verb is one the protocol knows.
pub open spec fn spec_known_verb(v: Seq<char>) -> bool {
    ||| v == "/join"@
    ||| v == "/leave"@
    ||| v == "/quit"@
    ||| v == "/list"@
    ||| v == "/users"@
}

/// Exec test for `spec_is_command`.
pub fn is_command(content: &String) -> (b: bool)
    ensures
        b == spec_is_command(content@),
{
    let s = content.as_str();
    if s.unicode_len() == 0 {
        false
    } else {
        s.get_char(0) == '/'
    }
}

/// Exec test for `is_blank`.
fn blank_char(c: char) -> (b: bool)
    ensures
        b == is_blank(c),
{
    c == ' ' || c == '\t'
}

/// A scan that stops at the first blank (or the end) has measured the
/// leading token.
proof fn lemma_token_scan(s: Seq<char>, k: int)
    requires
        0 <= k <= s.len(),
        forall|m: int| 0 <= m < k ==> !is_blank(s[m]),
        k == s.len() || is_blank(s[k]),
    ensures
        token_len(s) == k,
    decreases k,
{
    if k == 0 {
    } else {
        assert(!is_blank(s[0]));
        lemma_token_scan(s.skip(1), k - 1);
    }
}

/// A scan that stops at the first non-blank (or the end) has measured the
/// leading run of blanks.
proof fn lemma_blank_scan(s: Seq<char>, k: int)
    requires
        0 <= k <= s.len(),
        forall|m: int| 0 <= m < k ==> is_blank(s[m]),
        k == s.len() || !is_blank(s[k]),
    ensures
        blank_len(s) == k,
    decreases k,
{
    if k == 0 {
    } else {
        assert(is_blank(s[0]));
        lemma_blank_scan(s.skip(1), k - 1);
    }
}

/// Parses one command line. Returns the command if the verb is known and
/// its required argument is present; `Command`/"Usage: ..." when a verb
/// that needs a room name lacks one; `Command`/"Unknown command" for any
/// verb the protocol does not know. Never panics, whatever the content.
pub fn parse_command(content: &String) -> (r: Result<Command, ChatError>)
    ensures
        match r {
            Ok(cmd) => match cmd {
                Command::Join(room) => spec_verb(content@) == "/join"@ && room@ == spec_arg(
                    content@,
                ) && spec_arg(content@).len() > 0,
                Command::Leave(room) => spec_verb(content@) == "/leave"@ && room@ == spec_arg(
                    content@,
                ) && spec_arg(content@).len() > 0,
                Command::Quit => spec_verb(content@) == "/quit"@,
                Command::ListRooms => spec_verb(content@) == "/list"@,
                Command::ListUsers(room) => spec_verb(content@) == "/users"@ && room@ == spec_arg(
                    content@,
                ) && spec_arg(content@).len() > 0,
            },
            Err(e) => {
                &&& e.kind == ChatErrorKind::Command
                &&& if spec_verb(content@) == "/join"@ {
                    spec_arg(content@).len() == 0 && e.message@ == "Usage: /join <room>"@
                } else if spec_verb(content@) == "/leave"@ {
                    spec_arg(content@).len() == 0 && e.message@ == "Usage: /leave <room>"@
                } else if spec_verb(content@) == "/users"@ {
                    spec_arg(content@).len() == 0 && e.message@ == "Usage: /users <room>"@
                } else if spec_known_verb(spec_verb(content@)) {
                    false
                } else {
                    e.message@ == "Unknown command"@
                }
            },
        },
{
    let s = content.as_str();
    let n = s.unicode_len();

    // The verb: scan to the first blank.
    let mut ve: usize = 0;
    while ve < n && !blank_char(s.get_char(ve))
        invariant
            n == s@.len(),
            ve <= n,
            forall|m: int| 0 <= m < ve ==> !is_blank(s@[m]),
        decreases n - ve,
    {
        ve = ve + 1;
    }
    proof {
        lemma_token_scan(s@, ve as int);
    }

    // Blanks between verb and argument.
    let mut astart: usize = ve;
    while astart < n && blank_char(s.get_char(astart))
        invariant
            n == s@.len(),
            ve <= astart <= n,
            forall|m: int| ve <= m < astart ==> is_blank(s@[m]),
        decreases n - astart,
    {
        astart = astart + 1;
    }
    proof {
        let r1 = s@.skip(ve as int);
        assert forall|m: int| 0 <= m < astart - ve implies is_blank(r1[m]) by {
            assert(r1[m] == s@[ve + m]);
        }
        if astart < n {
            assert(r1[astart - ve] == s@[astart as int]);
        }
        lemma_blank_scan(r1, astart - ve);
    }

    // The argument: scan to the next blank.
    let mut aend: usize = astart;
    while aend < n && !blank_char(s.get_char(aend))
        invariant
            n == s@.len(),
            astart <= aend <= n,
            forall|m: int| astart <= m < aend ==> !is_blank(s@[m]),
        decreases n - aend,
    {
        aend = aend + 1;
    }
    proof {
        let r1 = s@.skip(ve as int);
        let r2 = r1.skip(blank_len(r1));
        assert(r2 =~= s@.skip(astart as int));
        assert forall|m: int| 0 <= m < aend - astart implies !is_blank(r2[m]) by {
            assert(r2[m] == s@[astart + m]);
        }
        if aend < n {
            assert(r2[aend - astart] == s@[aend as int]);
        }
        lemma_token_scan(r2, aend - astart);
        assert(spec_verb(content@) =~= s@.subrange(0, ve as int));
        assert(spec_arg(content@) =~= s@.subrange(astart as int, aend as int));
    }

    let verb = s.substring_char(0, ve).to_owned();
    let arg = s.substring_char(astart, aend).to_owned();
    let has_arg = aend > astart;

    if verb == "/join".to_owned() {
        if has_arg {
            Ok(Command::Join(arg))
        } else {
            Err(ChatError::new(ChatErrorKind::Command, "Usage: /join <room>".to_owned()))
        }
    } else if verb == "/leave".to_owned() {
        if has_arg {
            Ok(Command::Leave(arg))
        } else {
            Err(ChatError::new(ChatErrorKind::Command, "Usage: /leave <room>".to_owned()))
        }
    } else if verb == "/quit".to_owned() {
        Ok(Command::Quit)
    } else if verb == "/list".to_owned() {
        Ok(Command::ListRooms)
    } else if verb == "/users".to_owned() {
        if has_arg {
            Ok(Command::ListUsers(arg))
        } else {
            Err(ChatError::new(ChatErrorKind::Command, "Usage: /users <room>".to_owned()))
        }
    } else {
        Err(ChatError::new(ChatErrorKind::Command, "Unknown command".to_owned()))
    }
}

} // verus!
