use option_calculator::kind::{Call, Put};

#[test]
fn the_two_kinds_are_plain_markers() {
    let call = Call::default();
    let put = Put::default();
    let (call_copy, put_copy) = (call, put);
    assert_eq!(format!("{:?} {:?}", call, put), "Call Put");
    assert_eq!(format!("{:?} {:?}", call_copy.clone(), put_copy.clone()), "Call Put");
    assert_eq!(std::mem::size_of::<Call>(), 0);
    assert_eq!(std::mem::size_of::<Put>(), 0);
}
