//! The text of a log record: how its fields are gathered and how the line
//! that the interface's log panel receives is put together.
use vstd::prelude::*;

use crate::text::{append_str, joined, push_str, str_eq, views};

verus! {

/// How many log lines wait for the interface at most.
pub const TUI_LOG_CAPACITY: usize = 256;

/// The fields of one log record, gathered one by one.
pub struct EventVisitor {
    pub message: Option<String>,
    pub fields: Vec<String>,
}

/// The parts of a record's text: its message first, if it has one, then
/// its other fields as `name=value`.
pub open spec fn record_parts(message: Option<String>, fields: Seq<String>) -> Seq<Seq<char>> {
    match message {
        Some(m) => seq![m@] + views(fields),
        None => views(fields),
    }
}

impl EventVisitor {
    /// A visitor that has seen no field yet.
    pub fn new() -> (v: EventVisitor)
        ensures
            v.message is None,
            v.fields@.len() == 0,
    {
        EventVisitor { message: None, fields: Vec::new() }
    }

    /// Records one field: the `message` field is the record's message, any
    /// other is kept as `name=value`.
    pub fn record_value(&mut self, name: &str, value: String)
        ensures
            name@ == "message"@ ==> final(self).message == Some(value) && final(self).fields
                == old(self).fields,
            name@ != "message"@ ==> final(self).message == old(self).message && views(
                final(self).fields@,
            ) == views(old(self).fields@).push(name@ + "="@ + value@),
    {
        if str_eq(name, "message") {
            self.message = Some(value);
        } else {
            let mut field = append_str(name, "=");
            push_str(&mut field, value.as_str());
            let ghost before = views(self.fields@);
            self.fields.push(field);
            assert(views(self.fields@) =~= before.push(name@ + "="@ + value@));
        }
    }

    /// The record's text: its parts joined with single spaces.
    pub fn finish(self) -> (text: String)
        ensures
            text@ == joined(record_parts(self.message, self.fields@), " "@),
    {
        let mut values: Vec<String> = Vec::new();
        let ghost fields = self.fields@;
        match self.message {
            Some(m) => values.push(m),
            None => {},
        }
        let ghost head = views(values@);
        let mut rest = self.fields;
        let mut i: usize = 0;
        let n = rest.len();
        assert(views(rest@).take(0) =~= Seq::<Seq<char>>::empty());
        assert(head + views(rest@).take(0) =~= head);
        while i < n
            invariant
                n == rest@.len(),
                rest@ == fields,
                i <= n,
                views(values@) == head + views(rest@).take(i as int),
            decreases n - i,
        {
            let ghost before = views(values@);
            values.push(rest[i].clone());
            assert(views(values@) =~= before.push(rest@[i as int]@));
            assert(views(rest@).take(i + 1) =~= views(rest@).take(i as int).push(rest@[i as int]@));
            i = i + 1;
        }
        assert(views(rest@).take(n as int) =~= views(rest@));
        assert(views(values@) =~= record_parts(self.message, fields));
        crate::text::join(values.as_slice(), " ")
    }
}

/// The line the log panel receives for a record: `LEVEL target: text`.
pub fn log_line(level: &str, target: &str, text: &str) -> (line: String)
    ensures
        line@ == level@ + " "@ + target@ + ": "@ + text@,
{
    let mut line = append_str(level, " ");
    push_str(&mut line, target);
    push_str(&mut line, ": ");
    push_str(&mut line, text);
    line
}

} // verus!
