use markdown_core::element::Element;
use markdown_core::props::{ComponentCreationError, MdComponentProps};
use markdown_core::registry::{dispatch_component, CustomComponents};

type Comp = fn(MdComponentProps) -> Result<Element, ComponentCreationError>;

fn one(_props: MdComponentProps) -> Result<Element, ComponentCreationError> {
    Ok(Element::Text("one".to_string()))
}

fn two(_props: MdComponentProps) -> Result<Element, ComponentCreationError> {
    Ok(Element::Text("two".to_string()))
}

fn counter(props: MdComponentProps) -> Result<Element, ComponentCreationError> {
    let initial = props.get_optional_i64("initial")?;
    Ok(Element::Text(format!("counter:{}", initial.unwrap_or(0))))
}

fn entries() -> Vec<(String, Comp)> {
    vec![("One".to_string(), one as Comp), ("Counter".to_string(), counter as Comp)]
}

#[test]
fn identical_entry_lists_built_separately_compare_unequal() {
    let a = CustomComponents::new(entries());
    let b = CustomComponents::new(entries());
    assert!(!a.ptr_eq(&b));
}

#[test]
fn registry_equals_itself_and_its_clone() {
    let a = CustomComponents::new(entries());
    assert!(a.ptr_eq(&a));
    let shared = a.clone();
    assert!(a.ptr_eq(&shared));
}

#[test]
fn default_registry_is_empty() {
    let r: CustomComponents<Comp> = CustomComponents::default();
    assert!(!r.contains("One"));
}

#[test]
fn lookup_finds_registered_names_only() {
    let r = CustomComponents::new(entries());
    assert!(r.contains("One"));
    assert!(r.contains("Counter"));
    assert!(!r.contains("Two"));
    assert!(r.lookup("One").is_some());
    assert!(r.lookup("one").is_none());
}

#[test]
fn duplicate_registration_last_write_wins() {
    let r = CustomComponents::new(vec![
        ("X".to_string(), one as Comp),
        ("X".to_string(), two as Comp),
    ]);
    let f = r.lookup("X").expect("registered");
    let out = f(MdComponentProps::new(Vec::new(), None));
    assert_eq!(out, Ok(Element::Text("two".to_string())));
}

#[test]
fn dispatch_returns_exactly_the_registered_functions_view() {
    let r = CustomComponents::new(entries());
    let props = MdComponentProps::new(
        vec![("initial".to_string(), "5".to_string())],
        None,
    );
    let out = dispatch_component(&r, "Counter", props);
    assert_eq!(out, Ok(Element::Text("counter:5".to_string())));
}

#[test]
fn dispatch_unknown_name_fails_with_unknown_component() {
    let r = CustomComponents::new(entries());
    let props = MdComponentProps::new(Vec::new(), None);
    let out = dispatch_component(&r, "Missing", props);
    assert_eq!(
        out,
        Err(ComponentCreationError::UnknownComponent("Missing".to_string()))
    );
}

#[test]
fn dispatch_propagates_component_errors_unchanged() {
    let r = CustomComponents::new(entries());
    let props = MdComponentProps::new(
        vec![("initial".to_string(), "oops".to_string())],
        None,
    );
    let out = dispatch_component(&r, "Counter", props);
    assert_eq!(
        out,
        Err(ComponentCreationError::AttributeParseError(
            "initial".to_string(),
            "oops".to_string()
        ))
    );
}
