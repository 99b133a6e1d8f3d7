//! Canonical JSON text for the values that the log records.

use crate::log::entry::{
    files_view, CommitEntry, DataFile, FileView,
    Parameter, PartitionView, StatsView,
};
use crate::schema::{struct_fields_view, StructFieldView, TableSchema};
use crate::text::{
    decimal, join, joined, names_of, push_char, signed_decimal, i64_to_decimal, u64_to_decimal,
};
use vstd::prelude::*;

verus! {

/// The lower-case hexadecimal digit of a value below 16.
pub open spec fn hex_digit(d: nat) -> char {
    if d == 0 {
        '0'
    } else if d == 1 {
        '1'
    } else if d == 2 {
        '2'
    } else if d == 3 {
        '3'
    } else if d == 4 {
        '4'
    } else if d == 5 {
        '5'
    } else if d == 6 {
        '6'
    } else if d == 7 {
        '7'
    } else if d == 8 {
        '8'
    } else if d == 9 {
        '9'
    } else if d == 10 {
        'a'
    } else if d == 11 {
        'b'
    } else if d == 12 {
        'c'
    } else if d == 13 {
        'd'
    } else if d == 14 {
        'e'
    } else {
        'f'
    }
}

/// How one character is written inside a JSON string: the quote and the
/// backslash behind a backslash, the control characters by their short
/// escape or as `\u00` and two hexadecimal digits, every other character
/// as it is.
pub open spec fn escaped_char(c: char) -> Seq<char> {
    if c == '"' {
        seq!['\\', '"']
    } else if c == '\\' {
        seq!['\\', '\\']
    } else if c == '\n' {
        seq!['\\', 'n']
    } else if c == '\r' {
        seq!['\\', 'r']
    } else if c == '\t' {
        seq!['\\', 't']
    } else if c == '\u{8}' {
        seq!['\\', 'b']
    } else if c == '\u{c}' {
        seq!['\\', 'f']
    } else if (c as u32) < 0x20 {
        seq!['\\', 'u', '0', '0', hex_digit((c as nat) / 16), hex_digit((c as nat) % 16)]
    } else {
        seq![c]
    }
}

/// The characters of a string, each escaped.
pub open spec fn escaped(s: Seq<char>) -> Seq<char>
    decreases s.len(),
{
    if s.len() == 0 {
        Seq::empty()
    } else {
        escaped(s.drop_last()) + escaped_char(s.last())
    }
}

/// A string as a JSON string: escaped, between quotes.
pub open spec fn json_string(s: Seq<char>) -> Seq<char> {
    seq!['"'] + escaped(s) + seq!['"']
}

/// The members of a JSON object that holds the parameters, in order,
/// each but the first behind a comma.
pub open spec fn json_members(parameters: Seq<Parameter>) -> Seq<char>
    decreases parameters.len(),
{
    if parameters.len() == 0 {
        Seq::empty()
    } else {
        let p = parameters.last();
        let member = json_string(p.key@) + seq![':'] + json_string(p.value@);
        if parameters.len() == 1 {
            member
        } else {
            json_members(parameters.drop_last()) + seq![','] + member
        }
    }
}

/// The parameters of an operation as a JSON object of strings.
pub open spec fn json_object(parameters: Seq<Parameter>) -> Seq<char> {
    seq!['{'] + json_members(parameters) + seq!['}']
}

fn hex_digit_of(d: u32) -> (c: char)
    requires
        d < 16,
    ensures
        c == hex_digit(d as nat),
{
    if d == 0 {
        '0'
    } else if d == 1 {
        '1'
    } else if d == 2 {
        '2'
    } else if d == 3 {
        '3'
    } else if d == 4 {
        '4'
    } else if d == 5 {
        '5'
    } else if d == 6 {
        '6'
    } else if d == 7 {
        '7'
    } else if d == 8 {
        '8'
    } else if d == 9 {
        '9'
    } else if d == 10 {
        'a'
    } else if d == 11 {
        'b'
    } else if d == 12 {
        'c'
    } else if d == 13 {
        'd'
    } else if d == 14 {
        'e'
    } else {
        'f'
    }
}

/// Appends one character, escaped, to `out`.
fn push_escaped(out: &mut String, c: char)
    ensures
        final(out)@ == old(out)@ + escaped_char(c),
{
    if c == '"' {
        push_char(out, '\\');
        push_char(out, '"');
    } else if c == '\\' {
        push_char(out, '\\');
        push_char(out, '\\');
    } else if c == '\n' {
        push_char(out, '\\');
        push_char(out, 'n');
    } else if c == '\r' {
        push_char(out, '\\');
        push_char(out, 'r');
    } else if c == '\t' {
        push_char(out, '\\');
        push_char(out, 't');
    } else if c == '\u{8}' {
        push_char(out, '\\');
        push_char(out, 'b');
    } else if c == '\u{c}' {
        push_char(out, '\\');
        push_char(out, 'f');
    } else if (c as u32) < 0x20 {
        let code = c as u32;
        push_char(out, '\\');
        push_char(out, 'u');
        push_char(out, '0');
        push_char(out, '0');
        push_char(out, hex_digit_of(code / 16));
        push_char(out, hex_digit_of(code % 16));
    } else {
        push_char(out, c);
    }
    assert(out@ =~= old(out)@ + escaped_char(c));
}

/// Appends a string as a JSON string to `out`.
pub fn push_json_string(out: &mut String, s: &str)
    ensures
        final(out)@ == old(out)@ + json_string(s@),
{
    push_char(out, '"');
    let n = s.unicode_len();
    let mut i: usize = 0;
    assert(s@.subrange(0, 0) =~= Seq::empty());
    assert(out@ =~= old(out)@ + seq!['"'] + escaped(s@.subrange(0, 0)));
    while i < n
        invariant
            n == s@.len(),
            i <= n,
            out@ == old(out)@ + seq!['"'] + escaped(s@.subrange(0, i as int)),
        decreases n - i,
    {
        let ghost prefix = s@.subrange(0, i as int + 1);
        assert(prefix.drop_last() =~= s@.subrange(0, i as int));
        assert(prefix.last() == s@[i as int]);
        let ghost before = out@;
        push_escaped(out, s.get_char(i));
        assert(out@ =~= old(out)@ + seq!['"'] + escaped(prefix));
        i += 1;
    }
    assert(s@.subrange(0, n as int) =~= s@);
    push_char(out, '"');
    assert(out@ =~= old(out)@ + json_string(s@));
}

/// Writes a string as a JSON string.
pub fn to_json_string(s: &str) -> (out: String)
    ensures
        out@ == json_string(s@),
{
    let mut out = String::new();
    push_json_string(&mut out, s);
    assert(out@ =~= json_string(s@));
    out
}

/// Writes the parameters of an operation as a JSON object.
pub fn parameters_to_json(parameters: &Vec<Parameter>) -> (out: String)
    ensures
        out@ == json_object(parameters@),
{
    let mut out = String::new();
    push_char(&mut out, '{');
    let mut i: usize = 0;
    assert(parameters@.subrange(0, 0) =~= Seq::empty());
    assert(out@ =~= seq!['{'] + json_members(parameters@.subrange(0, 0)));
    while i < parameters.len()
        invariant
            i <= parameters.len(),
            out@ == seq!['{'] + json_members(parameters@.subrange(0, i as int)),
        decreases parameters.len() - i,
    {
        let ghost prefix = parameters@.subrange(0, i as int + 1);
        assert(prefix.drop_last() =~= parameters@.subrange(0, i as int));
        assert(prefix.last() == parameters@[i as int]);
        if i > 0 {
            push_char(&mut out, ',');
        }
        push_json_string(&mut out, parameters[i].key.as_str());
        push_char(&mut out, ':');
        push_json_string(&mut out, parameters[i].value.as_str());
        assert(out@ =~= seq!['{'] + json_members(prefix));
        i += 1;
    }
    assert(parameters@.subrange(0, parameters@.len() as int) =~= parameters@);
    push_char(&mut out, '}');
    out
}

/// One partition value as a member of a JSON object.
pub open spec fn partition_member(p: PartitionView) -> Seq<char> {
    json_string(p.column) + ":"@ + json_string(p.value)
}

/// One column summary as a member of a JSON object.
pub open spec fn stats_member(s: StatsView) -> Seq<char> {
    json_string(s.column) + ":{\"min\":"@ + json_string(s.min) + ",\"max\":"@ + json_string(s.max)
        + "}"@
}

/// The metadata of a data file as a JSON object.
pub open spec fn file_json(f: FileView) -> Seq<char> {
    "{\"id\":"@ + json_string(f.id) + ",\"path\":"@ + json_string(f.path)
        + ",\"partition_values\":{"@ + joined(
        f.partition_values.map_values(|p: PartitionView| partition_member(p)),
    ) + "},\"rows\":"@ + decimal(f.rows) + ",\"bytes\":"@ + decimal(f.bytes) + ",\"stats\":{"@
        + joined(f.stats.map_values(|s: StatsView| stats_member(s))) + "}}"@
}

/// One column of a schema as a JSON object.
pub open spec fn field_json(f: StructFieldView) -> Seq<char> {
    "{\"name\":"@ + json_string(f.name) + ",\"type\":"@ + json_string(f.data_type.spec_name())
        + ",\"nullable\":"@ + if f.nullable {
        "true"@
    } else {
        "false"@
    } + "}"@
}

/// A table's schema as a JSON object.
pub open spec fn schema_json(fields: Seq<StructFieldView>, partition_columns: Seq<Seq<char>>) -> Seq<
    char,
> {
    "{\"fields\":["@ + joined(fields.map_values(|f: StructFieldView| field_json(f)))
        + "],\"partition_columns\":["@ + joined(
        partition_columns.map_values(|c: Seq<char>| json_string(c)),
    ) + "]}"@
}

/// A commit entry as one line of JSON: its version, timestamp, operation
/// and parameters, the files it adds with their metadata, the identifiers
/// it removes, and the schema where it carries one.
pub open spec fn entry_json(entry: CommitEntry) -> Seq<char> {
    "{\"version\":"@ + signed_decimal(entry.version as int) + ",\"timestamp_ms\":"@
        + signed_decimal(entry.timestamp_ms as int) + ",\"operation\":"@ + json_string(
        entry.operation.spec_name(),
    ) + ",\"parameters\":"@ + json_object(entry.parameters@) + ",\"adds\":["@ + joined(
        files_view(entry.adds@).map_values(|f: FileView| file_json(f)),
    ) + "],\"removes\":["@ + joined(
        entry.removed_ids().map_values(|id: Seq<char>| json_string(id)),
    ) + "]"@ + match entry.schema {
        Some(schema) => ",\"schema\":"@ + schema_json(
            struct_fields_view(schema.fields@),
            names_of(schema.partition_columns@),
        ),
        None => Seq::empty(),
    } + "}"@
}

/// Writes each string as a JSON string.
fn json_strings(items: &Vec<String>) -> (out: Vec<String>)
    ensures
        names_of(out@) == names_of(items@).map_values(|c: Seq<char>| json_string(c)),
{
    let mut out: Vec<String> = Vec::new();
    let mut i: usize = 0;
    while i < items.len()
        invariant
            i <= items.len(),
            out@.len() == i,
            forall|k: int| 0 <= k < i ==> out@[k]@ == json_string(items@[k]@),
        decreases items.len() - i,
    {
        out.push(to_json_string(items[i].as_str()));
        i += 1;
    }
    assert(names_of(out@) =~= names_of(items@).map_values(|c: Seq<char>| json_string(c)));
    out
}

/// Writes the metadata of a data file as a JSON object.
pub fn file_to_json(file: &DataFile) -> (out: String)
    ensures
        out@ == file_json(file@),
{
    let mut partitions: Vec<String> = Vec::new();
    let mut i: usize = 0;
    while i < file.partition_values.len()
        invariant
            i <= file.partition_values.len(),
            partitions@.len() == i,
            forall|k: int|
                0 <= k < i ==> partitions@[k]@ == partition_member(file.partition_values@[k]@),
        decreases file.partition_values.len() - i,
    {
        let p = &file.partition_values[i];
        let mut member = to_json_string(p.column.as_str());
        member.append(":");
        push_json_string(&mut member, p.value.as_str());
        partitions.push(member);
        i += 1;
    }
    assert(names_of(partitions@) =~= file@.partition_values.map_values(
        |p: PartitionView| partition_member(p),
    ));
    let mut stats: Vec<String> = Vec::new();
    let mut j: usize = 0;
    while j < file.stats.len()
        invariant
            j <= file.stats.len(),
            stats@.len() == j,
            forall|k: int| 0 <= k < j ==> stats@[k]@ == stats_member(file.stats@[k]@),
        decreases file.stats.len() - j,
    {
        let s = &file.stats[j];
        let mut member = to_json_string(s.column.as_str());
        member.append(":{\"min\":");
        push_json_string(&mut member, s.min.as_str());
        member.append(",\"max\":");
        push_json_string(&mut member, s.max.as_str());
        member.append("}");
        stats.push(member);
        j += 1;
    }
    assert(names_of(stats@) =~= file@.stats.map_values(|s: StatsView| stats_member(s)));
    let mut out = String::from_str("{\"id\":");
    push_json_string(&mut out, file.id.as_str());
    out.append(",\"path\":");
    push_json_string(&mut out, file.path.as_str());
    out.append(",\"partition_values\":{");
    out.append(join(&partitions).as_str());
    out.append("},\"rows\":");
    out.append(u64_to_decimal(file.rows).as_str());
    out.append(",\"bytes\":");
    out.append(u64_to_decimal(file.bytes).as_str());
    out.append(",\"stats\":{");
    out.append(join(&stats).as_str());
    out.append("}}");
    out
}

/// Writes a table's schema as a JSON object.
pub fn schema_to_json(schema: &TableSchema) -> (out: String)
    ensures
        out@ == schema_json(
            struct_fields_view(schema.fields@),
            names_of(schema.partition_columns@),
        ),
{
    let mut fields: Vec<String> = Vec::new();
    let mut i: usize = 0;
    while i < schema.fields.len()
        invariant
            i <= schema.fields.len(),
            fields@.len() == i,
            forall|k: int| 0 <= k < i ==> fields@[k]@ == field_json(schema.fields@[k]@),
        decreases schema.fields.len() - i,
    {
        let f = &schema.fields[i];
        let mut text = String::from_str("{\"name\":");
        push_json_string(&mut text, f.name.as_str());
        text.append(",\"type\":");
        push_json_string(&mut text, f.data_type.as_str());
        text.append(",\"nullable\":");
        if f.nullable {
            text.append("true");
        } else {
            text.append("false");
        }
        text.append("}");
        fields.push(text);
        i += 1;
    }
    assert(names_of(fields@) =~= struct_fields_view(schema.fields@).map_values(
        |f: StructFieldView| field_json(f),
    ));
    let columns = json_strings(&schema.partition_columns);
    let mut out = String::from_str("{\"fields\":[");
    out.append(join(&fields).as_str());
    out.append("],\"partition_columns\":[");
    out.append(join(&columns).as_str());
    out.append("]}");
    out
}

/// Writes a commit entry as one line of JSON, as it is stored in the
/// log's directory.
pub fn entry_to_json(entry: &CommitEntry) -> (out: String)
    ensures
        out@ == entry_json(*entry),
{
    let mut adds: Vec<String> = Vec::new();
    let mut i: usize = 0;
    while i < entry.adds.len()
        invariant
            i <= entry.adds.len(),
            adds@.len() == i,
            forall|k: int| 0 <= k < i ==> adds@[k]@ == file_json(entry.adds@[k]@),
        decreases entry.adds.len() - i,
    {
        adds.push(file_to_json(&entry.adds[i]));
        i += 1;
    }
    assert(names_of(adds@) =~= files_view(entry.adds@).map_values(|f: FileView| file_json(f)));
    let removes = json_strings(&entry.removes);
    let mut out = String::from_str("{\"version\":");
    out.append(i64_to_decimal(entry.version).as_str());
    out.append(",\"timestamp_ms\":");
    out.append(i64_to_decimal(entry.timestamp_ms).as_str());
    out.append(",\"operation\":");
    push_json_string(&mut out, entry.operation.as_str());
    out.append(",\"parameters\":");
    out.append(parameters_to_json(&entry.parameters).as_str());
    out.append(",\"adds\":[");
    out.append(join(&adds).as_str());
    out.append("],\"removes\":[");
    out.append(join(&removes).as_str());
    out.append("]");
    match &entry.schema {
        Some(schema) => {
            out.append(",\"schema\":");
            out.append(schema_to_json(schema).as_str());
        },
        None => {
            assert(out@ + Seq::<char>::empty() =~= out@);
        },
    }
    out.append("}");
    out
}

} // verus!
