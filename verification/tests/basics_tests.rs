use rgrep::basics::{abs, compute_stuff, number_or_default, read_vec, sqr, vec_min, vec_sum,
    NumberOrNothing};
use rgrep::decimal::{i32_to_string, u64_to_string};
use rgrep::something;
use rgrep::something::{call_constructor, work_on_variant, Print, SomethingOrNothing, Variant};

#[test]
fn expressions() {
    assert_eq!(sqr(7), 49);
    assert_eq!(abs(-5), 5);
    assert_eq!(abs(5), 5);
    assert_eq!(compute_stuff(2), 324);
    assert_eq!(number_or_default(NumberOrNothing::Nothing, 42), 42);
    assert_eq!(number_or_default(NumberOrNothing::Number(7), 42), 7);
}

#[test]
fn minimum_of_vector() {
    assert_eq!(vec_min(read_vec()), NumberOrNothing::Number(2));
    assert_eq!(vec_min(vec![]), NumberOrNothing::Nothing);
    assert_eq!(vec_sum(read_vec()), NumberOrNothing::Number(68));
    assert_eq!(vec_sum(vec![]), NumberOrNothing::Nothing);
}

#[test]
fn generic_minimum() {
    let min = something::vec_min(something::read_vec());
    assert_eq!(min, SomethingOrNothing::Something(3));
    assert_eq!(something::vec_min::<i32>(vec![]), SomethingOrNothing::Nothing);
}

#[test]
fn optional_round_trip() {
    assert_eq!(SomethingOrNothing::new(Some(5)).to_option(), Some(5));
    assert_eq!(SomethingOrNothing::<i32>::new(None).to_option(), None);
    assert_eq!(call_constructor(9), SomethingOrNothing::Something(9));
}

#[test]
fn renderings() {
    assert_eq!(u64_to_string(0), "0");
    assert_eq!(u64_to_string(1234567890), "1234567890");
    assert_eq!(i32_to_string(-123), "-123");
    assert_eq!(i32_to_string(i32::MIN), "-2147483648");
    assert_eq!(5i32.print(), "The i32 is: 5");
    assert_eq!(SomethingOrNothing::Something(5).print2(), "The i32 is: 5");
    assert_eq!(SomethingOrNothing::<i32>::Nothing.print2(), "There is nothing.");
    assert_eq!(SomethingOrNothing::Something(5).print(), "The number is: 5");
    assert_eq!(SomethingOrNothing::<i32>::Nothing.print(), "The number is: <nothing>");
    assert_eq!(NumberOrNothing::Number(-7).print(), "The number is: -7");
    assert_eq!(NumberOrNothing::Nothing.print(), "The number is: <nothing>");
}

#[test]
fn variants() {
    assert_eq!(
        work_on_variant(Variant::Number(5), "ignored".to_string()),
        Variant::Number(1337)
    );
    assert_eq!(
        work_on_variant(Variant::Text("kept".to_string()), "ignored".to_string()),
        Variant::Text("kept".to_string())
    );
}
