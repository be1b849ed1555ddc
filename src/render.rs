use vstd::prelude::*;

use crate::classify::VariableType;
use crate::text::{chars_of, push_all};

verus! {

/// How deep the current line sits: before any header, under a `[section]`,
/// or under a `[[subsection]]` of a section.
#[derive(Debug, Clone, Copy, PartialEq, Eq, Structural)]
pub enum ConfigLevel {
    Root,
    Section,
    SubSection,
}

/// Rewritten assignments are indented by two spaces below the root.
pub open spec fn line_indent(level: ConfigLevel) -> Seq<char> {
    if level == ConfigLevel::Root {
        seq![]
    } else {
        seq![' ', ' ']
    }
}

/// `s` with every hyphen replaced by an underscore.
pub open spec fn underscored(s: Seq<char>) -> Seq<char> {
    s.map_values(|c: char| if c == '-' { '_' } else { c })
}

/// `prefix_[section_][subsection_]key`, with hyphens in the section,
/// subsection and key turned into underscores.
pub open spec fn variable_name(
    prefix: Seq<char>,
    level: ConfigLevel,
    section: Seq<char>,
    sub_section: Seq<char>,
    key: Seq<char>,
) -> Seq<char> {
    let scope = match level {
        ConfigLevel::Root => seq![],
        ConfigLevel::Section => underscored(section).push('_'),
        ConfigLevel::SubSection => underscored(section).push('_') + underscored(sub_section).push(
            '_',
        ),
    };
    prefix.push('_') + scope + underscored(key)
}

/// A value as listed with its variable: booleans become quoted strings.
pub open spec fn escaped_value(value: Seq<char>, t: VariableType) -> Seq<char> {
    if t == VariableType::Boolean {
        seq!['"'] + value + seq!['"']
    } else {
        value
    }
}

/// `{{ name }}`
pub open spec fn placeholder(name: Seq<char>) -> Seq<char> {
    seq!['{', '{', ' '] + name + seq![' ', '}', '}']
}

/// `<indent><key> = {{ name }}`, the placeholder quoted for a quoted string.
pub open spec fn template_line(
    indent: Seq<char>,
    key: Seq<char>,
    name: Seq<char>,
    t: VariableType,
) -> Seq<char> {
    let value = if t == VariableType::QuotedString {
        seq!['"'] + placeholder(name) + seq!['"']
    } else {
        placeholder(name)
    };
    indent + key + seq![' ', '=', ' '] + value
}

pub fn get_line_prefix(level: &ConfigLevel) -> (r: String)
    ensures
        r@ == line_indent(*level),
{
    let mut r = String::new();
    if *level != ConfigLevel::Root {
        r.push(' ');
        r.push(' ');
    }
    r
}

/// Appends `t` to `s` with hyphens turned into underscores.
fn push_underscored(s: &mut String, t: &str)
    ensures
        final(s)@ == old(s)@ + underscored(t@),
{
    let v = chars_of(t);
    let mut i: usize = 0;
    while i < v.len()
        invariant
            i <= v.len(),
            v@ == t@,
            s@ == old(s)@ + underscored(v@.take(i as int)),
        decreases v.len() - i,
    {
        let c = v[i];
        if c == '-' {
            s.push('_');
        } else {
            s.push(c);
        }
        assert(underscored(v@.take(i + 1)) == underscored(v@.take(i as int)).push(
            if c == '-' {
                '_'
            } else {
                c
            },
        ));
        i += 1;
    }
    assert(v@.take(v.len() as int) == v@);
}

pub fn get_variable_name(
    prefix: &str,
    level: &ConfigLevel,
    section: &str,
    sub_section: &str,
    name: &str,
) -> (r: String)
    ensures
        r@ == variable_name(prefix@, *level, section@, sub_section@, name@),
{
    let mut var = String::new();
    push_all(&mut var, prefix);
    var.push('_');
    let ghost head = var@;
    if *level != ConfigLevel::Root {
        push_underscored(&mut var, section);
        var.push('_');
        if *level == ConfigLevel::SubSection {
            push_underscored(&mut var, sub_section);
            var.push('_');
        }
    }
    let ghost scope = var@.skip(head.len() as int);
    assert(var@ == head + scope);
    push_underscored(&mut var, name);
    assert(var@ == variable_name(prefix@, *level, section@, sub_section@, name@));
    var
}

pub fn escape_config_value(value: &str, variable_type: &VariableType) -> (r: String)
    ensures
        r@ == escaped_value(value@, *variable_type),
{
    let mut result = String::new();
    if *variable_type == VariableType::Boolean {
        result.push('"');
        push_all(&mut result, value);
        result.push('"');
    } else {
        push_all(&mut result, value);
    }
    result
}

/// The assignment line of the template: `<prefix><name> = {{ variable_name }}`.
pub fn variable_line(
    prefix: &str,
    name: &str,
    variable_name: &str,
    variable_type: &VariableType,
) -> (r: String)
    ensures
        r@ == template_line(prefix@, name@, variable_name@, *variable_type),
{
    let mut result = String::new();
    push_all(&mut result, prefix);
    push_all(&mut result, name);
    result.push(' ');
    result.push('=');
    result.push(' ');
    let ghost head = result@;
    if *variable_type == VariableType::QuotedString {
        result.push('"');
    }
    result.push('{');
    result.push('{');
    result.push(' ');
    push_all(&mut result, variable_name);
    result.push(' ');
    result.push('}');
    result.push('}');
    if *variable_type == VariableType::QuotedString {
        result.push('"');
    }
    let ghost tail = result@.skip(head.len() as int);
    assert(result@ == head + tail);
    assert(result@ == template_line(prefix@, name@, variable_name@, *variable_type));
    result
}

} // verus!
