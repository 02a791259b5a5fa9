use dpc::lower::{cleanup_fn_id, fmt_lowered_arg, highest_power_of_2_factor};

#[test]
fn lowered_arg_name() {
    assert_eq!(fmt_lowered_arg("foo:bar", 3), "in_arg_foo:bar_3");
}

#[test]
fn cleaned_function_id() {
    assert_eq!(cleanup_fn_id("foo:bar/baz"), "foo_bar_baz");
    assert_eq!(cleanup_fn_id("plain"), "plain");
}

#[test]
fn power_of_two_factor() {
    assert_eq!(highest_power_of_2_factor(12), 4);
    assert_eq!(highest_power_of_2_factor(1), 1);
    assert_eq!(highest_power_of_2_factor(7), 1);
    assert_eq!(highest_power_of_2_factor(128), 128);
    assert_eq!(highest_power_of_2_factor(96), 32);
}
