//! The log record data model and the renderer: a severity enum with its
//! fixed label/color table, the record struct, and the pure formatting of
//! one record into one terminal line.
use vstd::prelude::*;
use vstd::string::StringExecFns;

verus! {

/// Severity of a log record: a closed four-valued classification.
#[derive(Clone, Copy, PartialEq, Eq, Debug)]
pub enum MessageType {
    Normal,
    Error,
    Warning,
    Debug,
}

/// One decoded log record. Every field is sender-supplied text except the
/// severity; the receiver renders it once and discards it.
#[derive(Debug)]
pub struct Message {
    pub module: String,
    pub msg_type: MessageType,
    pub string: String,
    pub time: String,
}

/// Mathematical model of a record: its text fields as character sequences.
pub struct MessageModel {
    pub module: Seq<char>,
    pub msg_type: MessageType,
    pub string: Seq<char>,
    pub time: Seq<char>,
}

impl View for Message {
    type V = MessageModel;

    open spec fn view(&self) -> MessageModel {
        MessageModel {
            module: self.module@,
            msg_type: self.msg_type,
            string: self.string@,
            time: self.time@,
        }
    }
}

/// The fixed bracketed label of each severity.
pub open spec fn severity_label(t: MessageType) -> Seq<char> {
    match t {
        MessageType::Normal => "[info]"@,
        MessageType::Error => "[error]"@,
        MessageType::Warning => "[warning]"@,
        MessageType::Debug => "[debug]"@,
    }
}

/// The fixed terminal color escape of each severity
/// (green, red, yellow, blue, in declaration order).
pub open spec fn severity_color(t: MessageType) -> Seq<char> {
    match t {
        MessageType::Normal => "\x1b[32;1m"@,
        MessageType::Error => "\x1b[31;1m"@,
        MessageType::Warning => "\x1b[33;1m"@,
        MessageType::Debug => "\x1b[34;1m"@,
    }
}

/// The exact line rendered for a record:
/// `[<time>] [<module>] <color><label><reset> <text><reset>`.
/// Color wraps only the label and, separately, the message text.
pub open spec fn rendered_line(m: MessageModel) -> Seq<char> {
    "["@ + m.time + "] ["@ + m.module + "] "@ + severity_color(m.msg_type) + severity_label(
        m.msg_type,
    ) + "\x1b[0m "@ + m.string + "\x1b[0m"@
}

impl MessageType {
    /// The colored label written before a message of this severity.
    pub fn label(&self) -> (s: &'static str)
        ensures
            s@ == severity_color(*self) + severity_label(*self),
    {
        proof {
            reveal_strlit("[info]");
            reveal_strlit("[error]");
            reveal_strlit("[warning]");
            reveal_strlit("[debug]");
            reveal_strlit("\x1b[32;1m");
            reveal_strlit("\x1b[31;1m");
            reveal_strlit("\x1b[33;1m");
            reveal_strlit("\x1b[34;1m");
            reveal_strlit("\x1b[32;1m[info]");
            reveal_strlit("\x1b[31;1m[error]");
            reveal_strlit("\x1b[33;1m[warning]");
            reveal_strlit("\x1b[34;1m[debug]");
        }
        match self {
            MessageType::Normal => {
                proof {
                    assert("\x1b[32;1m[info]"@ =~= severity_color(MessageType::Normal)
                        + severity_label(MessageType::Normal));
                }
                "\x1b[32;1m[info]"
            },
            MessageType::Error => {
                proof {
                    assert("\x1b[31;1m[error]"@ =~= severity_color(MessageType::Error)
                        + severity_label(MessageType::Error));
                }
                "\x1b[31;1m[error]"
            },
            MessageType::Warning => {
                proof {
                    assert("\x1b[33;1m[warning]"@ =~= severity_color(MessageType::Warning)
                        + severity_label(MessageType::Warning));
                }
                "\x1b[33;1m[warning]"
            },
            MessageType::Debug => {
                proof {
                    assert("\x1b[34;1m[debug]"@ =~= severity_color(MessageType::Debug)
                        + severity_label(MessageType::Debug));
                }
                "\x1b[34;1m[debug]"
            },
        }
    }
}

/// No two severities share a label, and no two share a color: the table of
/// severities is injective in both columns.
pub proof fn lemma_severity_table_injective(a: MessageType, b: MessageType)
    requires
        a != b,
    ensures
        severity_label(a) != severity_label(b),
        severity_color(a) != severity_color(b),
{
    reveal_strlit("[info]");
    reveal_strlit("[error]");
    reveal_strlit("[warning]");
    reveal_strlit("[debug]");
    reveal_strlit("\x1b[32;1m");
    reveal_strlit("\x1b[31;1m");
    reveal_strlit("\x1b[33;1m");
    reveal_strlit("\x1b[34;1m");
    assert(severity_label(MessageType::Normal).len() == 6);
    assert(severity_label(MessageType::Warning).len() == 9);
    assert(severity_label(MessageType::Error)[1] == 'e');
    assert(severity_label(MessageType::Debug)[1] == 'd');
    assert(severity_color(MessageType::Normal)[3] == '2');
    assert(severity_color(MessageType::Error)[3] == '1');
    assert(severity_color(MessageType::Warning)[3] == '3');
    assert(severity_color(MessageType::Debug)[3] == '4');
}

impl Message {
    /// Render this record as its one output line (without the trailing
    /// newline). Pure formatting: any text content passes through unescaped.
    pub fn render_line(&self) -> (line: String)
        ensures
            line@ == rendered_line(self@),
    {
        let mut line = String::new();
        line.append("[");
        line.append(self.time.as_str());
        line.append("] [");
        line.append(self.module.as_str());
        line.append("] ");
        line.append(self.msg_type.label());
        line.append("\x1b[0m ");
        line.append(self.string.as_str());
        line.append("\x1b[0m");
        proof {
            assert(line@ =~= rendered_line(self@));
        }
        line
    }
}

} // verus!
