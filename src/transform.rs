use vstd::prelude::*;

use crate::classify::{
    is_assignment, is_config_line, lemma_normalized_is_trimmed, normalize, normalized_line,
    parse_config_line, value_type,
};
use crate::error::TransformError;
use crate::render::{
    escape_config_value, escaped_value, get_line_prefix, get_variable_name, line_indent,
    template_line, variable_line, variable_name, ConfigLevel,
};
use crate::text::{chars_of, lemma_trim_of_trimmed, push_all, push_range, string_of_range, two_parts};

verus! {

/// The nesting in force at some line of a document.
pub struct Scope {
    pub level: ConfigLevel,
    pub section: Seq<char>,
    pub sub_section: Seq<char>,
}

pub open spec fn initial_scope() -> Scope {
    Scope { level: ConfigLevel::Root, section: seq![], sub_section: seq![] }
}

/// A subsection is only ever entered inside a section, and header names are
/// never empty.
pub open spec fn scope_wf(s: Scope) -> bool {
    &&& s.level != ConfigLevel::Root ==> s.section.len() > 0
    &&& s.level == ConfigLevel::SubSection ==> s.sub_section.len() > 0
}

/// What a normalized line is taken for.
pub enum LineKind {
    SubSectionHeader { name: Seq<char> },
    SectionHeader { name: Seq<char> },
    Assignment { key: Seq<char>, value: Seq<char> },
    Other,
}

/// `[[name]]` (checked first), then `[name]`, then `key = value`.
pub open spec fn classify(n: Seq<char>) -> LineKind {
    if n.len() > 4 && n[0] == '[' && n[1] == '[' {
        LineKind::SubSectionHeader { name: n.subrange(2, n.len() - 2) }
    } else if n.len() > 2 && n[0] == '[' {
        LineKind::SectionHeader { name: n.subrange(1, n.len() - 1) }
    } else if is_assignment(n) {
        match two_parts(n) {
            Some((key, value)) => LineKind::Assignment { key, value },
            None => LineKind::Other,
        }
    } else {
        LineKind::Other
    }
}

/// `\n# [name]\n`
pub open spec fn section_marker(name: Seq<char>) -> Seq<char> {
    seq!['\n', '#', ' ', '['] + name + seq![']', '\n']
}

/// `\n# [[name]]\n`
pub open spec fn sub_section_marker(name: Seq<char>) -> Seq<char> {
    seq!['\n', '#', ' ', '[', '['] + name + seq![']', ']', '\n']
}

/// `name: value\n`
pub open spec fn variable_entry(name: Seq<char>, value: Seq<char>) -> Seq<char> {
    name + seq![':', ' '] + value + seq!['\n']
}

/// What one line contributes: the scope after it, its line of the template
/// and its text in the variable listing.
pub struct StepOut {
    pub scope: Scope,
    pub line: Seq<char>,
    pub variables: Seq<char>,
}

/// One line under scope `st`; `None` for a subsection header at the root.
pub open spec fn step(st: Scope, raw: Seq<char>, prefix: Seq<char>) -> Option<StepOut> {
    match classify(normalize(raw)) {
        LineKind::SubSectionHeader { name } => if st.level == ConfigLevel::Root {
            None
        } else {
            Some(
                StepOut {
                    scope: Scope { level: ConfigLevel::SubSection, sub_section: name, ..st },
                    line: raw,
                    variables: sub_section_marker(name),
                },
            )
        },
        LineKind::SectionHeader { name } => Some(
            StepOut {
                scope: Scope { level: ConfigLevel::Section, section: name, ..st },
                line: raw,
                variables: section_marker(name),
            },
        ),
        LineKind::Assignment { key, value } => {
            let t = value_type(value);
            let name = variable_name(prefix, st.level, st.section, st.sub_section, key);
            Some(
                StepOut {
                    scope: st,
                    line: template_line(line_indent(st.level), key, name, t),
                    variables: variable_entry(name, escaped_value(value, t)),
                },
            )
        },
        LineKind::Other => Some(StepOut { scope: st, line: raw, variables: seq![] }),
    }
}

/// The result of a whole pass over a document.
pub enum Outcome {
    Done { scope: Scope, template: Seq<Seq<char>>, variables: Seq<char> },
    /// The pass stopped at this line.
    Failed { index: int },
}

/// The pass over `lines`, line by line from the root scope.
pub open spec fn run(lines: Seq<Seq<char>>, prefix: Seq<char>) -> Outcome
    decreases lines.len(),
{
    if lines.len() == 0 {
        Outcome::Done { scope: initial_scope(), template: seq![], variables: seq![] }
    } else {
        match run(lines.drop_last(), prefix) {
            Outcome::Done { scope, template, variables } => match step(
                scope,
                lines.last(),
                prefix,
            ) {
                Some(out) => Outcome::Done {
                    scope: out.scope,
                    template: template.push(out.line),
                    variables: variables + out.variables,
                },
                None => Outcome::Failed { index: lines.len() - 1 },
            },
            Outcome::Failed { index } => Outcome::Failed { index },
        }
    }
}

/// Lines joined into one text, each ended by a newline.
pub open spec fn lines_text(lines: Seq<Seq<char>>) -> Seq<char>
    decreases lines.len(),
{
    if lines.len() == 0 {
        seq![]
    } else {
        lines_text(lines.drop_last()) + lines.last() + seq!['\n']
    }
}

pub open spec fn lines_view(lines: Seq<String>) -> Seq<Seq<char>> {
    lines.map_values(|l: String| l@)
}

/// The scope that a pass carries from line to line.
pub struct ScopeState {
    level: ConfigLevel,
    section: String,
    sub_section: String,
}

impl View for ScopeState {
    type V = Scope;

    closed spec fn view(&self) -> Scope {
        Scope { level: self.level, section: self.section@, sub_section: self.sub_section@ }
    }
}

impl ScopeState {
    pub fn new() -> (r: Self)
        ensures
            r@ == initial_scope(),
    {
        ScopeState { level: ConfigLevel::Root, section: String::new(), sub_section: String::new() }
    }

    /// Handles one line: updates the scope, appends the line's template line
    /// and a newline to `template`, and its entry to `variables`. A
    /// subsection header at the root changes nothing and is reported.
    pub fn process_line(
        &mut self,
        line: &str,
        prefix: &str,
        template: &mut String,
        variables: &mut String,
    ) -> (r: Result<(), TransformError>)
        ensures
            match step(old(self)@, line@, prefix@) {
                Some(out) => {
                    &&& r is Ok
                    &&& final(self)@ == out.scope
                    &&& final(template)@ == old(template)@ + out.line + seq!['\n']
                    &&& final(variables)@ == old(variables)@ + out.variables
                },
                None => {
                    &&& r matches Err(TransformError::SubsectionAtRoot { line: l })
                    &&& l@ == normalize(line@)
                    &&& final(self)@ == old(self)@
                    &&& final(template)@ == old(template)@
                    &&& final(variables)@ == old(variables)@
                },
            },
    {
        let norm = normalized_line(line);
        let n = chars_of(norm.as_str());
        let len = n.len();
        if len > 4 && n[0] == '[' && n[1] == '[' {
            if self.level == ConfigLevel::Root {
                return Err(TransformError::SubsectionAtRoot { line: norm });
            }
            self.level = ConfigLevel::SubSection;
            self.sub_section = string_of_range(&n, 2, len - 2);
            variables.push('\n');
            variables.push('#');
            variables.push(' ');
            variables.push('[');
            variables.push('[');
            push_range(variables, &n, 2, len - 2);
            variables.push(']');
            variables.push(']');
            variables.push('\n');
            push_all(template, line);
        } else if len > 2 && n[0] == '[' {
            self.level = ConfigLevel::Section;
            self.section = string_of_range(&n, 1, len - 1);
            variables.push('\n');
            variables.push('#');
            variables.push(' ');
            variables.push('[');
            push_range(variables, &n, 1, len - 1);
            variables.push(']');
            variables.push('\n');
            push_all(template, line);
        } else if is_config_line(norm.as_str()) {
            proof {
                lemma_normalized_is_trimmed(line@);
                lemma_trim_of_trimmed(norm@);
            }
            let (name, value, variable_type) = match parse_config_line(norm.as_str()) {
                Ok(parts) => parts,
                Err(e) => {
                    return Err(e);
                },
            };
            let variable_name = get_variable_name(
                prefix,
                &self.level,
                self.section.as_str(),
                self.sub_section.as_str(),
                name.as_str(),
            );
            push_all(variables, variable_name.as_str());
            variables.push(':');
            variables.push(' ');
            let escaped = escape_config_value(value.as_str(), &variable_type);
            push_all(variables, escaped.as_str());
            variables.push('\n');
            let indent = get_line_prefix(&self.level);
            let rewritten = variable_line(
                indent.as_str(),
                name.as_str(),
                variable_name.as_str(),
                &variable_type,
            );
            push_all(template, rewritten.as_str());
        } else {
            push_all(template, line);
        }
        template.push('\n');
        Ok(())
    }
}

/// The template and the variable listing of a whole document.
#[derive(Debug, PartialEq, Eq)]
pub struct Rendered {
    pub template: String,
    pub variables: String,
}

/// Runs the pass over `lines`, naming variables after `prefix`.
pub fn transform(lines: &Vec<String>, prefix: &str) -> (r: Result<Rendered, TransformError>)
    ensures
        match run(lines_view(lines@), prefix@) {
            Outcome::Done { template, variables, .. } => r matches Ok(out) && out.template@
                == lines_text(template) && out.variables@ == variables,
            Outcome::Failed { index } => r matches Err(TransformError::SubsectionAtRoot { line })
                && 0 <= index < lines.len() && line@ == normalize(lines@[index]@),
        },
{
    let mut state = ScopeState::new();
    let mut template = String::new();
    let mut variables = String::new();
    let ghost all = lines_view(lines@);
    let mut i: usize = 0;
    while i < lines.len()
        invariant
            i <= lines.len(),
            all == lines_view(lines@),
            run(all.take(i as int), prefix@) matches Outcome::Done { scope, template: tl, variables: vs }
                && scope == state@ && template@ == lines_text(tl) && variables@ == vs,
        decreases lines.len() - i,
    {
        assert(all.take(i + 1).drop_last() == all.take(i as int));
        assert(all.take(i + 1).last() == lines@[i as int]@);
        let ghost before = run(all.take(i as int), prefix@);
        match state.process_line(lines[i].as_str(), prefix, &mut template, &mut variables) {
            Ok(()) => {
                proof {
                    let out = step(before->scope, lines@[i as int]@, prefix@)->Some_0;
                    assert(before->template.push(out.line).drop_last() == before->template);
                }
            },
            Err(e) => {
                proof {
                    lemma_failure_persists(all, prefix@, i + 1);
                }
                return Err(e);
            },
        }
        i += 1;
    }
    assert(all.take(lines.len() as int) == all);
    Ok(Rendered { template, variables })
}

/// Once a pass has stopped, more lines do not change where.
pub proof fn lemma_failure_persists(lines: Seq<Seq<char>>, prefix: Seq<char>, k: int)
    requires
        0 <= k <= lines.len(),
        run(lines.take(k), prefix) is Failed,
    ensures
        run(lines, prefix) == run(lines.take(k), prefix),
    decreases lines.len() - k,
{
    if k < lines.len() {
        assert(lines.take(k + 1).drop_last() == lines.take(k));
        lemma_failure_persists(lines, prefix, k + 1);
    } else {
        assert(lines.take(k) == lines);
    }
}

} // verus!
