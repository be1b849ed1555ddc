use vstd::prelude::*;

use crate::classify::{lemma_normalized_is_trimmed, lemma_normalized_stable, normalize};
use crate::render::{line_indent, placeholder, variable_name};
use crate::text::{is_white_space, lemma_find_sep_from, lemma_trim_of_trimmed, trim_start};
use crate::transform::{classify, lemma_failure_persists, run, step, LineKind, Outcome, Scope};

verus! {

/// The scope in force when line `i` of `lines` is reached.
pub open spec fn scope_before(lines: Seq<Seq<char>>, prefix: Seq<char>, i: int) -> Scope {
    run(lines.take(i), prefix)->Done_scope
}

/// A finished pass has one template line per input line, and each line's
/// template line is what that line gives under the scope reached before it.
pub proof fn lemma_template_lines(lines: Seq<Seq<char>>, prefix: Seq<char>, k: int)
    requires
        run(lines, prefix) is Done,
        0 <= k <= lines.len(),
    ensures
        run(lines.take(k), prefix) is Done,
        run(lines.take(k), prefix)->Done_template == run(lines, prefix)->Done_template.take(k),
        run(lines, prefix)->Done_template.len() == lines.len(),
    decreases lines.len(),
{
    if lines.len() > 0 {
        lemma_template_lines(lines.drop_last(), prefix, lines.len() - 1);
        assert(lines.drop_last().take(lines.len() - 1) == lines.drop_last());
        let t = run(lines, prefix)->Done_template;
        assert(t.take(lines.len() as int) == t);
        if k < lines.len() {
            lemma_template_lines(lines.drop_last(), prefix, k);
            assert(lines.drop_last().take(k) == lines.take(k));
            assert(t.drop_last() == run(lines.drop_last(), prefix)->Done_template);
            assert(t.drop_last().take(k) == t.take(k));
        }
    }
    assert(lines.take(lines.len() as int) == lines);
}

/// Line `i` of the template is the step's output for line `i`.
pub proof fn lemma_template_line(lines: Seq<Seq<char>>, prefix: Seq<char>, i: int)
    requires
        run(lines, prefix) is Done,
        0 <= i < lines.len(),
    ensures
        run(lines.take(i), prefix) is Done,
        step(scope_before(lines, prefix, i), lines[i], prefix) matches Some(out) && run(
            lines,
            prefix,
        )->Done_template[i] == out.line,
{
    lemma_template_lines(lines, prefix, i + 1);
    lemma_template_lines(lines, prefix, i);
    assert(lines.take(i + 1).drop_last() == lines.take(i));
    assert(lines.take(i + 1).last() == lines[i]);
    let t = run(lines, prefix)->Done_template;
    let before = run(lines.take(i), prefix);
    let out = step(before->Done_scope, lines[i], prefix);
    assert(out is Some);
    assert(t.take(i + 1) == before->Done_template.push(out->Some_0.line));
    assert(t.take(i + 1)[i] == t[i]);
}

/// Every line that is not an assignment (headers, comments, blank or
/// malformed lines) stands in the template as it was, in its place.
pub proof fn lemma_other_lines_verbatim(lines: Seq<Seq<char>>, prefix: Seq<char>, i: int)
    requires
        run(lines, prefix) is Done,
        0 <= i < lines.len(),
        !(classify(normalize(lines[i])) is Assignment),
    ensures
        run(lines, prefix)->Done_template.len() == lines.len(),
        run(lines, prefix)->Done_template[i] == lines[i],
{
    lemma_template_lines(lines, prefix, 0);
    lemma_template_line(lines, prefix, i);
}

/// Every assignment `key = value` becomes `<indent><key> = {{ name }}` in the
/// template, indented by two spaces below the root, with the placeholder in
/// quotes exactly when the value starts with a double quote; `name` is the
/// scope-qualified variable name.
pub proof fn lemma_assignment_placeholder(
    lines: Seq<Seq<char>>,
    prefix: Seq<char>,
    i: int,
    key: Seq<char>,
    value: Seq<char>,
)
    requires
        run(lines, prefix) is Done,
        0 <= i < lines.len(),
        classify(normalize(lines[i])) == (LineKind::Assignment { key, value }),
    ensures
        ({
            let st = scope_before(lines, prefix, i);
            let name = variable_name(prefix, st.level, st.section, st.sub_section, key);
            let rendered = if value.len() > 0 && value[0] == '"' {
                seq!['"'] + placeholder(name) + seq!['"']
            } else {
                placeholder(name)
            };
            run(lines, prefix)->Done_template[i] == line_indent(st.level) + key + seq![' ', '=', ' ']
                + rendered
        }),
{
    lemma_template_line(lines, prefix, i);
}

/// A subsection header met while no section is active stops the pass at
/// that line, whatever follows it.
pub proof fn lemma_subsection_at_root_stops(lines: Seq<Seq<char>>, prefix: Seq<char>, i: int)
    requires
        0 <= i < lines.len(),
        run(lines.take(i), prefix) matches Outcome::Done { scope, .. } && scope.level
            == crate::render::ConfigLevel::Root,
        classify(normalize(lines[i])) is SubSectionHeader,
    ensures
        run(lines, prefix) == (Outcome::Failed { index: i }),
{
    assert(lines.take(i + 1).drop_last() == lines.take(i));
    assert(lines.take(i + 1).last() == lines[i]);
    lemma_failure_persists(lines, prefix, i + 1);
}

/// An assignment line is its key, the separator and its value, and its key
/// is not empty.
pub proof fn lemma_assignment_shape(n: Seq<char>, key: Seq<char>, value: Seq<char>)
    requires
        classify(n) == (LineKind::Assignment { key, value }),
    ensures
        n == key + seq![' ', '=', ' '] + value,
        key.len() > 0 ==> key[0] == n[0],
        n.len() >= 3,
        key.len() == 0 ==> n[0] == ' ',
{
    lemma_find_sep_from(n, 0);
    let i = crate::text::find_sep_from(n, 0)->Some_0;
    assert(n == n.take(i) + seq![' ', '=', ' '] + n.skip(i + 3));
}

/// Putting an assignment's value back in place of its placeholder, on the
/// template's indentation, gives a line that is classified as the original
/// one was: same key, value, type, variable name and output. (A key that
/// itself starts with `#` is left out: there the restored line reads as a
/// comment.)
pub proof fn lemma_restored_assignment(
    st: Scope,
    raw: Seq<char>,
    prefix: Seq<char>,
    key: Seq<char>,
    value: Seq<char>,
)
    requires
        classify(normalize(raw)) == (LineKind::Assignment { key, value }),
        key.len() == 0 || key[0] != '#',
    ensures
        step(st, line_indent(st.level) + key + seq![' ', '=', ' '] + value, prefix) == step(
            st,
            raw,
            prefix,
        ),
{
    let n = normalize(raw);
    lemma_assignment_shape(n, key, value);
    lemma_normalized_is_trimmed(raw);
    assert(key.len() > 0) by {
        assert(!is_white_space(n[0]));
    }
    let restored = line_indent(st.level) + key + seq![' ', '=', ' '] + value;
    assert(restored == line_indent(st.level) + n);
    assert(trim_start(restored) == n) by {
        lemma_trim_of_trimmed(n);
        if st.level != crate::render::ConfigLevel::Root {
            let once = restored.drop_first();
            assert(once.drop_first() == n);
            assert(is_white_space(restored[0]));
            assert(trim_start(restored) == trim_start(once));
            assert(is_white_space(once[0]));
            assert(trim_start(once) == trim_start(n));
        }
    }
    lemma_trim_of_trimmed(n);
    lemma_normalized_stable(n);
    assert(normalize(restored) == n);
}

} // verus!
