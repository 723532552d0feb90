use servo::navigation::NavigationContext;

#[test]
fn a_new_history_is_empty() {
    let context = NavigationContext::new();
    assert_eq!(context.previous(), None);
    assert_eq!(context.current(), None);
}

#[test]
fn the_page_gone_to_is_current() {
    let mut context = NavigationContext::new();
    context.navigate(4);
    assert_eq!(context.current(), Some(4));
    assert_eq!(context.previous(), None);
}

#[test]
fn the_page_left_is_previous() {
    let mut context = NavigationContext::new();
    context.navigate(4);
    context.navigate(5);
    assert_eq!(context.current(), Some(5));
    assert_eq!(context.previous(), Some(4));
    context.navigate(4);
    assert_eq!(context.current(), Some(4));
    assert_eq!(context.previous(), Some(5));
}
