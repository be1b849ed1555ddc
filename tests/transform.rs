use conf_template::error::TransformError;
use conf_template::transform::{transform, Rendered, ScopeState};

fn lines(v: &[&str]) -> Vec<String> {
    v.iter().map(|s| s.to_string()).collect()
}

#[test]
fn example_db_replica() {
    let r = transform(&lines(&["[db]", "host = \"localhost\"", "[[replica]]", "port = 5432"]), "app");
    assert_eq!(
        r,
        Ok(Rendered {
            template: "[db]\n  host = \"{{ app_db_host }}\"\n[[replica]]\n  port = {{ app_db_replica_port }}\n"
                .to_string(),
            variables: "\n# [db]\napp_db_host: \"localhost\"\n\n# [[replica]]\napp_db_replica_port: 5432\n"
                .to_string(),
        })
    );
}

#[test]
fn other_lines_kept_verbatim() {
    let input = lines(&["  # a comment", "", "   ", "just text", "a=b", "x = y = z", "[s]", "  k = v"]);
    let r = transform(&input, "p").unwrap();
    let out: Vec<&str> = r.template.split('\n').collect();
    assert_eq!(out.len(), input.len() + 1);
    for i in 0..7 {
        assert_eq!(out[i], input[i]);
    }
    assert_eq!(out[7], "  k = {{ p_s_k }}");
    assert_eq!(out[8], "");
    assert_eq!(r.variables, "\n# [s]\np_s_k: v\n");
}

#[test]
fn root_assignment_has_no_indent() {
    let r = transform(&lines(&["   name = \"x\"", "count = 3"]), "pre").unwrap();
    assert_eq!(r.template, "name = \"{{ pre_name }}\"\ncount = {{ pre_count }}\n");
    assert_eq!(r.variables, "pre_name: \"x\"\npre_count: 3\n");
}

#[test]
fn hyphens_become_underscores() {
    let r = transform(&lines(&["[my-db]", "[[read-replica]]", "max-conn = 10"]), "my-app").unwrap();
    assert_eq!(r.template, "[my-db]\n[[read-replica]]\n  max-conn = {{ my-app_my_db_read_replica_max_conn }}\n");
    assert_eq!(
        r.variables,
        "\n# [my-db]\n\n# [[read-replica]]\nmy-app_my_db_read_replica_max_conn: 10\n"
    );
}

#[test]
fn booleans_quoted_in_variables() {
    let r = transform(&lines(&["a = true", "b = false", "c = True", "d = \"true\""]), "x").unwrap();
    assert_eq!(r.variables, "x_a: \"true\"\nx_b: \"false\"\nx_c: True\nx_d: \"true\"\n");
    assert_eq!(r.template, "a = {{ x_a }}\nb = {{ x_b }}\nc = {{ x_c }}\nd = \"{{ x_d }}\"\n");
}

#[test]
fn subsection_at_root_stops() {
    let r = transform(&lines(&["a = 1", "# [[sub]] ", "b = 2"]), "x");
    assert_eq!(r, Err(TransformError::SubsectionAtRoot { line: "[[sub]]".to_string() }));
}

#[test]
fn subsection_after_section_is_fine() {
    let r = transform(&lines(&["[s]", "[[t]]", "[[u]]", "k = 1", "[v]", "k = 2"]), "x").unwrap();
    assert_eq!(r.variables, "\n# [s]\n\n# [[t]]\n\n# [[u]]\nx_s_u_k: 1\n\n# [v]\nx_v_k: 2\n");
}

#[test]
fn commented_headers_and_assignments_count() {
    let r = transform(&lines(&["#[s]", "#  k = 1"]), "x").unwrap();
    assert_eq!(r.template, "#[s]\n  k = {{ x_s_k }}\n");
    assert_eq!(r.variables, "\n# [s]\nx_s_k: 1\n");
}

#[test]
fn empty_input() {
    let r = transform(&Vec::new(), "x").unwrap();
    assert_eq!(r.template, "");
    assert_eq!(r.variables, "");
}

#[test]
fn restored_template_classifies_the_same() {
    let input = lines(&["[db]", "host = \"localhost\"", "[[replica]]", "port = 5432", "on = true"]);
    let first = transform(&input, "app").unwrap();
    let restored = lines(&["[db]", "  host = \"localhost\"", "[[replica]]", "  port = 5432", "  on = true"]);
    let second = transform(&restored, "app").unwrap();
    assert_eq!(first.variables, second.variables);
    assert_eq!(first.template, second.template);
}

#[test]
fn process_line_threads_scope() {
    let mut st = ScopeState::new();
    let mut template = String::new();
    let mut variables = String::new();
    assert_eq!(st.process_line("[a]", "p", &mut template, &mut variables), Ok(()));
    assert_eq!(st.process_line("k = v", "p", &mut template, &mut variables), Ok(()));
    assert_eq!(template, "[a]\n  k = {{ p_a_k }}\n");
    assert_eq!(variables, "\n# [a]\np_a_k: v\n");
}

#[test]
fn process_line_error_leaves_output() {
    let mut st = ScopeState::new();
    let mut template = String::from("t");
    let mut variables = String::from("v");
    let r = st.process_line("[[x]]", "p", &mut template, &mut variables);
    assert_eq!(r, Err(TransformError::SubsectionAtRoot { line: "[[x]]".to_string() }));
    assert_eq!(template, "t");
    assert_eq!(variables, "v");
}
