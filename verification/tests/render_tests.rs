use fast_render_core::FastRenderCore;

#[test]
fn renders_basic_markdown() {
    let mut core = FastRenderCore::new();
    let html = core.render_markdown("# Title").unwrap();
    assert_eq!(html, "<h1>Title</h1>\n");
}

#[test]
fn paragraph_rendering_transforms_input() {
    let mut core = FastRenderCore::new();
    let html = core.render_markdown("hello world").unwrap();
    assert_eq!(html, "<p>hello world</p>\n");
}

#[test]
fn deterministic_across_fresh_instances() {
    let input = "# Head\n\nSome *emphasis*, a [link](https://example.com) and `code`.";
    let mut a = FastRenderCore::new();
    let mut b = FastRenderCore::new();
    let ha = a.render_markdown(input).unwrap();
    let hb = b.render_markdown(input).unwrap();
    assert_eq!(ha, hb);
}

#[test]
fn deterministic_after_clear() {
    let input = "Some text with a list:\n\n- one\n- two\n";
    let mut core = FastRenderCore::new();
    let first = core.render_markdown(input).unwrap();
    core.clear_cache();
    let second = core.render_markdown(input).unwrap();
    assert_eq!(first, second);
}

#[test]
fn cache_hit_returns_same_output() {
    let input = "repeated **input**";
    let mut core = FastRenderCore::new();
    let first = core.render_markdown(input).unwrap();
    assert_eq!(core.cache_len(), 1);
    let second = core.render_markdown(input).unwrap();
    assert_eq!(core.cache_len(), 1);
    assert_eq!(first, second);
}

#[test]
fn capacity_eviction_leaves_only_newest() {
    let mut core = FastRenderCore::new();
    for i in 0..100usize {
        core.render_markdown(&format!("paragraph number {}", i)).unwrap();
    }
    assert_eq!(core.cache_len(), 100);
    core.render_markdown("the straw that broke the cache").unwrap();
    assert_eq!(core.cache_len(), 1);
    let again = core.render_markdown("paragraph number 0").unwrap();
    assert_eq!(core.cache_len(), 2);
    assert_eq!(again, "<p>paragraph number 0</p>\n");
}

#[test]
fn explicit_clear_forces_recompute() {
    let input = "cached then cleared";
    let mut core = FastRenderCore::new();
    let first = core.render_markdown(input).unwrap();
    core.clear_cache();
    assert_eq!(core.cache_len(), 0);
    let second = core.render_markdown(input).unwrap();
    assert_eq!(core.cache_len(), 1);
    assert_eq!(first, second);
}

#[test]
fn fenced_code_block_gets_language_class() {
    let mut core = FastRenderCore::new();
    let html = core.render_markdown("```python\nprint(1)\n```").unwrap();
    assert!(html.contains("<pre><code class=\"language-python\">"));
    assert_eq!(html, "<pre><code class=\"language-python\">\nprint(1)\n</code></pre>\n");
}

#[test]
fn fenced_code_block_without_language_is_untouched() {
    let mut core = FastRenderCore::new();
    let html = core.render_markdown("```\nplain code\n```").unwrap();
    assert!(!html.contains("language-"));
    assert!(html.contains("<pre><code>"));
    assert!(html.contains("plain code"));
}

#[test]
fn indented_code_block_is_untouched() {
    let mut core = FastRenderCore::new();
    let html = core.render_markdown("    indented code\n").unwrap();
    assert!(!html.contains("language-"));
    assert!(html.contains("<pre><code>"));
}

#[test]
fn tables_are_enabled() {
    let mut core = FastRenderCore::new();
    let html = core.render_markdown("| a | b |\n|---|---|\n| 1 | 2 |\n").unwrap();
    assert!(html.contains("<table>"));
}

#[test]
fn strikethrough_is_enabled() {
    let mut core = FastRenderCore::new();
    let html = core.render_markdown("~~gone~~").unwrap();
    assert!(html.contains("<del>gone</del>"));
}

#[test]
fn task_lists_are_enabled() {
    let mut core = FastRenderCore::new();
    let html = core.render_markdown("- [ ] item\n").unwrap();
    assert!(html.contains("checkbox"));
}

#[test]
fn footnotes_are_enabled() {
    let mut core = FastRenderCore::new();
    let html = core.render_markdown("text with a note [^1]\n\n[^1]: the note\n").unwrap();
    assert!(html.contains("footnote"));
}

#[test]
fn debug_toggle_does_not_change_output() {
    let input = "# Same\n\n```rust\nlet x = 1;\n```\n";
    let mut core = FastRenderCore::new();
    core.set_debug(true);
    let with_debug = core.render_markdown(input).unwrap();
    core.set_debug(false);
    let without_debug = core.render_markdown(input).unwrap();
    assert_eq!(with_debug, without_debug);

    let mut fresh = FastRenderCore::new();
    fresh.set_debug(true);
    let fresh_with_debug = fresh.render_markdown(input).unwrap();
    assert_eq!(with_debug, fresh_with_debug);
}

#[test]
fn math_like_text_passes_through() {
    let mut core = FastRenderCore::new();
    let html = core.render_markdown("inline math $x_1$ stays").unwrap();
    assert!(html.contains("$x_1$"));
}
