use agent_vcpu::load::{Load, FULL_BITS, IDLE_BITS};

fn load(x: f64) -> Load {
    Load::from_bits(x.to_bits())
}

#[test]
fn bounds_are_the_doubles_they_name() {
    assert_eq!(f64::from_bits(IDLE_BITS), 0.20);
    assert_eq!(f64::from_bits(FULL_BITS), 1.0);
}

#[test]
fn loads_compare_as_doubles() {
    let samples = [
        f64::NEG_INFINITY,
        -2.5,
        -f64::MIN_POSITIVE,
        -0.0,
        0.0,
        5e-324,
        f64::MIN_POSITIVE,
        0.19999999999999998,
        0.20,
        0.52,
        0.62,
        1.0,
        f64::MAX,
        f64::INFINITY,
        f64::NAN,
    ];
    for a in samples {
        for b in samples {
            assert_eq!(load(a).at_most(load(b)), a <= b);
            assert_eq!(load(a).below(load(b)), a < b);
        }
    }
}

#[test]
fn zeros_are_equal() {
    assert_eq!(load(0.0), load(-0.0));
}

#[test]
fn what_is_no_number_is_undefined() {
    assert_eq!(load(f64::NAN), Load::Undefined);
    assert_eq!(load(-f64::NAN), Load::Undefined);
}
