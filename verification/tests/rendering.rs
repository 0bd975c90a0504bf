use openlock::binder::RpcError;
use openlock::component::{Props, UserItem};
use openlock::component::{Nav, UserCard, UserComponent};
use openlock::html::{attr, attrs0, attrs1, element, invoke, nodes1, nodes2, text, Node};
use openlock::component::ComponentId;
use openlock::expand::expand;
use openlock::routes::{handle_index, handle_user};
use openlock::serialize::serialize;
use openlock::signal::Signal;
use openlock::status;

fn count_invocations(n: &Node) -> usize {
    match n {
        Node::Element { children, .. } => children.iter().map(count_invocations).sum(),
        Node::Text(_) => 0,
        Node::Invocation { .. } => 1,
    }
}

fn fresh_context() -> openlock::component::RouteContext {
    openlock::component::RouteContext {
        chain_id: Signal::create(7),
        block_number: Signal::create(9),
        user: None,
    }
}

#[test]
fn serialize_is_deterministic() {
    let tree = element(
        "div",
        attrs1(attr("class", "box")),
        nodes2(text("hello"), element("p", attrs0(), nodes1(text("world")))),
    );
    let once = serialize(&tree);
    let tree2 = element(
        "div",
        attrs1(attr("class", "box")),
        nodes2(text("hello"), element("p", attrs0(), nodes1(text("world")))),
    );
    let twice = serialize(&tree2);
    assert_eq!(once, twice);
    assert_eq!(once, "<div class=\"box\">hello<p>world</p></div>");
}

#[test]
fn text_escaping_removes_angle_brackets() {
    let tree = element("p", attrs0(), nodes1(text("<script>alert(\"x\")</script>")));
    let out = serialize(&tree);
    let inner = &out["<p>".len()..out.len() - "</p>".len()];
    assert!(!inner.contains('<'));
    assert!(!inner.contains('>'));
    assert!(inner.contains("&lt;script&gt;"));
    assert!(inner.contains("&quot;"));
}

#[test]
fn attribute_quote_escaping_keeps_quoting_intact() {
    let tree = element("div", attrs1(attr("title", "a\"b")), nodes1(text("x")));
    let out = serialize(&tree);
    assert_eq!(out, "<div title=\"a&quot;b\">x</div>");
}

#[test]
fn void_tags_self_close() {
    let tree = element("link", attrs1(attr("rel", "icon")), nodes1(text("ignored?")));
    let out = serialize(&tree);
    assert_eq!(out, "<link rel=\"icon\">");
}

#[test]
fn expansion_leaves_no_invocations() {
    let mut ctx = fresh_context();
    let tree = element(
        "section",
        attrs0(),
        nodes2(invoke(ComponentId::Main, Props::Empty), invoke(ComponentId::PageRoot, Props::Empty)),
    );
    assert!(count_invocations(&tree) == 2);
    let expanded = expand(&tree, &mut ctx);
    assert_eq!(count_invocations(&expanded), 0);
}

#[test]
fn expansion_of_page_root_reads_signals() {
    let mut ctx = fresh_context();
    let expanded = expand(&invoke(ComponentId::PageRoot, Props::Empty), &mut ctx);
    let out = serialize(&expanded);
    assert!(out.contains("Chain: 7"));
    assert!(out.contains("Block: 9"));
}

#[test]
fn nav_renders_home_link() {
    let out = serialize(&Nav());
    assert_eq!(out, "<header class=\"header\"><nav><a href=\"/\">Home</a></nav></header>");
}

#[test]
fn user_card_carries_lazy_load_trigger() {
    let out = serialize(&UserCard());
    assert_eq!(
        out,
        "<div hx-get=\"/user\" hx-trigger=\"load delay:1s\"><p>Connect User</p></div>"
    );
}

#[test]
fn user_component_renders_name() {
    let out = serialize(&UserComponent(UserItem { name: String::from("Ada") }));
    assert_eq!(out, "<div><p>Name: Ada</p></div>");
}

#[test]
fn index_document_is_complete() {
    let r = handle_index(Ok(1), Ok(18000000));
    let body = r.unwrap_or_else(|_| panic!("index render failed"));
    assert!(body.contains("Chain: 1"));
    assert!(body.contains("Block: 18000000"));
    assert!(body.starts_with("<html>"));
    assert!(body.ends_with("</html>"));
    assert_eq!(body.matches("<title>OpenLock</title>").count(), 1);
}

#[test]
fn user_fragment_has_name_and_no_trigger() {
    let body = handle_user();
    assert!(body.contains("Name: John"));
    assert!(!body.contains("hx-get"));
    assert!(!body.contains("hx-trigger"));
}

#[test]
fn failed_block_fetch_aborts_with_no_body() {
    let r = handle_index(Ok(1), Err(RpcError { message: String::from("boom") }));
    match r {
        Ok(_) => panic!("expected a binding error"),
        Err(openlock::binder::BindingError::BlockNumberUnavailable(e)) => {
            assert_eq!(e.message, "boom");
        }
        Err(_) => panic!("wrong binding error"),
    }
}

#[test]
fn failed_chain_fetch_reported_first() {
    let r = handle_index(
        Err(RpcError { message: String::from("a") }),
        Err(RpcError { message: String::from("b") }),
    );
    assert!(matches!(
        r,
        Err(openlock::binder::BindingError::ChainIdUnavailable(_))
    ));
}

#[test]
fn status_bypasses_rendering() {
    assert_eq!(status(), "OK");
}
