use fallow::extract::MemberAccess;
use fallow::sfc_template::{
    apply_svelte_tag, collect_template_snippets, merge_usage, parse_vue_tag, pop_svelte_scope, SfcKind, SnippetRequest,
    SvelteBlockKind, SvelteScopeFrame, TemplateSnippetKind, TemplateUsage,
};

fn chars(s: &str) -> Vec<char> {
    s.chars().collect()
}

fn text(v: &[char]) -> String {
    v.iter().collect()
}

fn summary(reqs: &[SnippetRequest]) -> Vec<(String, TemplateSnippetKind, Vec<String>)> {
    reqs.iter()
        .map(|r| (text(&r.text), r.kind, r.locals.iter().map(|l| text(l)).collect()))
        .collect()
}

fn expr(t: &str, locals: &[&str]) -> (String, TemplateSnippetKind, Vec<String>) {
    (t.to_string(), TemplateSnippetKind::Expression, locals.iter().map(|s| s.to_string()).collect())
}

#[test]
fn svelte_plain_expression_is_analyzed() {
    let src = chars("<script>import { formatDate } from './utils';</script><p>{formatDate(value)}</p>");
    let reqs = collect_template_snippets(SfcKind::Svelte, &src);
    assert_eq!(summary(&reqs), vec![expr("formatDate(value)", &[])]);
}

#[test]
fn svelte_each_alias_is_local_inside_the_block() {
    let src = chars("<script>import { item } from './utils';</script>{#each items as item}<p>{item}</p>{/each}");
    let reqs = collect_template_snippets(SfcKind::Svelte, &src);
    assert_eq!(summary(&reqs), vec![expr("items", &[]), expr("item", &["item"])]);
}

#[test]
fn svelte_each_key_sees_the_alias() {
    let src = chars("{#each rows as { id, name } (id)}{name}{/each}{after}");
    let reqs = collect_template_snippets(SfcKind::Svelte, &src);
    assert_eq!(
        summary(&reqs),
        vec![expr("rows", &[]), expr("id", &["id", "name"]), expr("name", &["id", "name"]), expr("after", &[])]
    );
}

#[test]
fn svelte_styles_and_scripts_are_ignored() {
    let src = chars("<style>.button { color: red; }</style><script>import { button } from './utils';</script>");
    let reqs = collect_template_snippets(SfcKind::Svelte, &src);
    assert!(reqs.is_empty());
}

#[test]
fn svelte_await_then_binds_value() {
    let src = chars("{#await load()}{:then data}{data.x}{/await}");
    let reqs = collect_template_snippets(SfcKind::Svelte, &src);
    assert_eq!(summary(&reqs), vec![expr("load()", &[]), expr("data.x", &["data"])]);
}

#[test]
fn svelte_const_is_a_statement_and_binds_names() {
    let src = chars("{#if ok}{@const total = a + b}{total}{/if}");
    let reqs = collect_template_snippets(SfcKind::Svelte, &src);
    let s = summary(&reqs);
    assert_eq!(s[0], expr("ok", &[]));
    assert_eq!(s[1], ("total = a + b".to_string(), TemplateSnippetKind::Statement, vec![]));
    assert_eq!(s[2], expr("total", &["total"]));
}

#[test]
fn svelte_closing_tag_pops_to_the_block() {
    let mut scopes = vec![
        SvelteScopeFrame { kind: SvelteBlockKind::Other, locals: vec![] },
        SvelteScopeFrame { kind: SvelteBlockKind::Each, locals: vec![chars("x")] },
        SvelteScopeFrame { kind: SvelteBlockKind::If, locals: vec![] },
    ];
    pop_svelte_scope(&mut scopes, &chars("each"));
    assert_eq!(scopes.len(), 1);
    pop_svelte_scope(&mut scopes, &chars("each"));
    assert_eq!(scopes.len(), 1);
    let mut requests = Vec::new();
    apply_svelte_tag(&chars("#snippet row(a, b)"), &mut scopes, &mut requests);
    assert_eq!(scopes.len(), 2);
    assert_eq!(scopes[1].locals, vec![chars("a"), chars("b")]);
    assert!(requests.is_empty());
}

#[test]
fn vue_mustache_is_analyzed() {
    let src = chars(
        "<script setup>import { formatDate } from './utils';</script><template><p>{{ formatDate(value) }}</p></template>",
    );
    let reqs = collect_template_snippets(SfcKind::Vue, &src);
    assert_eq!(summary(&reqs), vec![expr("formatDate(value)", &[])]);
}

#[test]
fn vue_v_for_alias_is_local_inside_the_element() {
    let src = chars(
        "<script setup>import { item } from './utils';</script><template><li v-for=\"item in items\">{{ item }}</li>{{ item }}</template>",
    );
    let reqs = collect_template_snippets(SfcKind::Vue, &src);
    assert_eq!(summary(&reqs), vec![expr("items", &[]), expr("item", &["item"]), expr("item", &[])]);
}

#[test]
fn vue_event_handlers_are_statements() {
    let src = chars(
        "<template><button @click=\"count += increment(step)\" :title=\"label\">Add</button></template>",
    );
    let reqs = collect_template_snippets(SfcKind::Vue, &src);
    let s = summary(&reqs);
    assert_eq!(s[0], ("count += increment(step)".to_string(), TemplateSnippetKind::Statement, vec![]));
    assert_eq!(s[1], expr("label", &[]));
}

#[test]
fn vue_template_in_comment_is_skipped() {
    let src = chars("<!-- <template>{{ hidden }}</template> --><template>{{ shown }}</template>");
    let reqs = collect_template_snippets(SfcKind::Vue, &src);
    assert_eq!(summary(&reqs), vec![expr("shown", &[])]);
}

#[test]
fn parse_vue_tag_reads_attributes() {
    let tag = parse_vue_tag(&chars("<my-comp :a=\"x + 1\" b='two' c=plain d />"));
    assert!(tag.self_closing);
    let attrs: Vec<(String, Option<String>)> =
        tag.attrs.iter().map(|a| (text(&a.name), a.value.as_ref().map(|v| text(v)))).collect();
    assert_eq!(
        attrs,
        vec![
            (":a".to_string(), Some("x + 1".to_string())),
            ("b".to_string(), Some("two".to_string())),
            ("c".to_string(), Some("plain".to_string())),
            ("d".to_string(), None),
        ]
    );
}

#[test]
fn merge_usage_adds_each_item_once() {
    let mut into = TemplateUsage {
        used_bindings: vec!["a".to_string()],
        member_accesses: vec![MemberAccess { object: "utils".to_string(), member: "f".to_string() }],
        whole_object_uses: vec![],
    };
    let other = TemplateUsage {
        used_bindings: vec!["a".to_string(), "b".to_string(), "b".to_string()],
        member_accesses: vec![
            MemberAccess { object: "utils".to_string(), member: "f".to_string() },
            MemberAccess { object: "utils".to_string(), member: "g".to_string() },
        ],
        whole_object_uses: vec!["ns".to_string()],
    };
    merge_usage(&mut into, &other);
    assert_eq!(into.used_bindings, vec!["a".to_string(), "b".to_string()]);
    assert_eq!(into.member_accesses.len(), 2);
    assert_eq!(into.member_accesses[1].member, "g");
    assert_eq!(into.whole_object_uses, vec!["ns".to_string()]);
    assert!(!into.is_empty());
    assert!(TemplateUsage::default().is_empty());
}
