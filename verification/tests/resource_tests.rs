use borf::effects::{
    borrow_resource, consume_resource, parse_effect, tag_as_resource, use_resource, EffectType,
    Resource, ResourceManager, ResourceValue,
};
use borf::errors::{EvaluatorError, ParseFailure, ResourceFailure};
use borf::types::Value;

fn resource_error<T>(f: ResourceFailure) -> Result<T, EvaluatorError> {
    Err(EvaluatorError::ResourceError(f))
}

#[test]
fn resource_is_consumed_once() {
    let mut manager = ResourceManager::new();
    let file = tag_as_resource(Value::Number(7), "file", &mut manager);
    assert_eq!(file, Value::Resource(0, Box::new(Value::Number(7))));
    assert_eq!(consume_resource(&file, &mut manager), Ok(Value::Number(7)));
    assert_eq!(
        consume_resource(&file, &mut manager),
        resource_error(ResourceFailure::AlreadyConsumed)
    );
}

#[test]
fn borrow_blocks_consumption_until_region_ends() {
    let mut manager = ResourceManager::new();
    let r = tag_as_resource(Value::String("data".to_string()), "socket", &mut manager);
    manager.start_region();
    assert_eq!(
        borrow_resource(&r, &mut manager),
        Ok(Value::BorrowedResource(0, Box::new(Value::String("data".to_string()))))
    );
    assert!(manager.is_borrowed(0));
    assert_eq!(consume_resource(&r, &mut manager), resource_error(ResourceFailure::BorrowedActive));
    assert_eq!(manager.end_region(), Ok(()));
    assert!(!manager.is_borrowed(0));
    assert_eq!(consume_resource(&r, &mut manager), Ok(Value::String("data".to_string())));
}

#[test]
fn borrow_in_outer_region_still_blocks_in_inner_region() {
    let mut manager = ResourceManager::new();
    let id = manager.create_resource("file");
    manager.start_region();
    assert_eq!(manager.borrow_resource(id), Ok(()));
    manager.start_region();
    assert_eq!(manager.consume_resource(id), resource_error(ResourceFailure::BorrowedActive));
    assert_eq!(manager.end_region(), Ok(()));
    assert_eq!(manager.consume_resource(id), resource_error(ResourceFailure::BorrowedActive));
    assert_eq!(manager.end_region(), Ok(()));
    assert_eq!(manager.consume_resource(id), Ok(()));
}

#[test]
fn leaks_are_the_resources_never_consumed() {
    let mut manager = ResourceManager::new();
    assert_eq!(manager.check_for_leaks(), vec![]);
    let a = manager.create_resource("file");
    let b = manager.create_resource("socket");
    let c = manager.create_resource("file");
    assert_eq!((a, b, c), (0, 1, 2));
    assert_eq!(manager.consume_resource(b), Ok(()));
    assert_eq!(
        manager.check_for_leaks(),
        vec![(0, "file".to_string()), (2, "file".to_string())]
    );
    assert_eq!(manager.consume_resource(a), Ok(()));
    assert_eq!(manager.consume_resource(c), Ok(()));
    assert_eq!(manager.check_for_leaks(), vec![]);
}

#[test]
fn unknown_and_consumed_resources_are_refused() {
    let mut manager = ResourceManager::new();
    assert_eq!(manager.check_resource(0), resource_error(ResourceFailure::UnknownId));
    assert_eq!(manager.consume_resource(3), resource_error(ResourceFailure::UnknownId));
    assert_eq!(manager.resource_type(0), resource_error(ResourceFailure::UnknownId));
    let id = manager.create_resource("file");
    assert_eq!(manager.resource_type(id), Ok("file".to_string()));
    assert_eq!(manager.check_resource(id), Ok(()));
    assert_eq!(manager.borrow_resource(id), resource_error(ResourceFailure::NoActiveRegion));
    assert_eq!(manager.consume_resource(id), Ok(()));
    assert_eq!(manager.check_resource(id), resource_error(ResourceFailure::Consumed));
    manager.start_region();
    assert_eq!(manager.borrow_resource(id), resource_error(ResourceFailure::Consumed));
    assert_eq!(manager.borrow_resource(9), resource_error(ResourceFailure::UnknownId));
}

#[test]
fn end_region_needs_an_open_region() {
    let mut manager = ResourceManager::new();
    assert_eq!(manager.end_region(), resource_error(ResourceFailure::NoActiveRegion));
    manager.start_region();
    assert_eq!(manager.end_region(), Ok(()));
    assert_eq!(manager.end_region(), resource_error(ResourceFailure::NoActiveRegion));
}

#[test]
fn values_that_are_no_resources_are_refused() {
    let mut manager = ResourceManager::new();
    let plain = Value::Number(1);
    assert_eq!(use_resource(&plain, &manager), resource_error(ResourceFailure::NotAResource));
    assert_eq!(
        consume_resource(&plain, &mut manager),
        resource_error(ResourceFailure::NotAResource)
    );
    assert_eq!(
        borrow_resource(&plain, &mut manager),
        resource_error(ResourceFailure::NotAResource)
    );
    let borrowed = Value::BorrowedResource(0, Box::new(Value::Nil));
    assert_eq!(
        consume_resource(&borrowed, &mut manager),
        resource_error(ResourceFailure::NotAResource)
    );
    let r = tag_as_resource(Value::Nil, "file", &mut manager);
    assert_eq!(use_resource(&r, &manager), Ok(()));
}

#[test]
fn resource_value_handles() {
    let v = Value::Number(5);
    assert_eq!(v.get_resource_id(), None);
    assert!(!v.is_resource());
    let r = v.with_resource_id(4);
    assert_eq!(r, Value::Resource(4, Box::new(Value::Number(5))));
    assert_eq!(r.get_resource_id(), Some(4));
    assert!(r.is_resource());
    assert_eq!(r.with_resource_id(9), Value::Resource(9, Box::new(Value::Number(5))));
}

#[test]
fn resource_marks() {
    let mut r = Resource::new(3, "file");
    assert!(!r.is_consumed());
    assert_eq!(r.resource_type(), "file");
    assert_eq!(r.mark_consumed(), Ok(()));
    assert!(r.is_consumed());
    assert_eq!(r.mark_consumed(), resource_error(ResourceFailure::AlreadyConsumed));
}

#[test]
fn stats_text() {
    let mut manager = ResourceManager::new();
    assert_eq!(manager.stats(), "Resources: 0 total, 0 active, 0 consumed\nBy type:\n");
    manager.create_resource("file");
    manager.create_resource("socket");
    manager.create_resource("file");
    assert_eq!(manager.consume_resource(1), Ok(()));
    assert_eq!(
        manager.stats(),
        "Resources: 3 total, 2 active, 1 consumed\nBy type:\n  file: 2\n  socket: 1\n"
    );
}

#[test]
fn effect_annotations() {
    assert_eq!(parse_effect("!creates[file]"), Ok(EffectType::Creates("file".to_string())));
    assert_eq!(parse_effect("!consumes[file]"), Ok(EffectType::Consumes("file".to_string())));
    assert_eq!(parse_effect("!uses[db]"), Ok(EffectType::Uses("db".to_string())));
    assert_eq!(parse_effect("!transfers[x y]"), Ok(EffectType::Transfers("x y".to_string())));
    assert_eq!(parse_effect("!creates[]"), Ok(EffectType::Creates("".to_string())));
    assert_eq!(parse_effect("!pure"), Ok(EffectType::Pure));
    let invalid = Err(EvaluatorError::ParseError(ParseFailure::InvalidEffect));
    assert_eq!(parse_effect("!creates[file"), invalid);
    assert_eq!(parse_effect("!creates["), invalid);
    assert_eq!(parse_effect("pure"), invalid);
    assert_eq!(parse_effect(""), invalid);
}
