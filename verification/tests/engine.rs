use yolo26_pose::engine::{select_bindings, BindingError, BindingInfo, InputSizeMismatch};

fn b(is_input: bool, is_float: bool, byte_size: usize) -> BindingInfo {
    BindingInfo { is_input, is_float, byte_size }
}

#[test]
fn one_float_input_and_output() {
    let l = select_bindings(&[b(true, true, 3 * 640 * 640 * 4), b(false, true, 300 * 57 * 4)]).unwrap();
    assert_eq!((l.input_index, l.output_index), (0, 1));
    assert_eq!(l.input_count, 3 * 640 * 640);
    assert_eq!(l.output_count, 300 * 57);
    let l = select_bindings(&[b(false, true, 8), b(true, true, 16)]).unwrap();
    assert_eq!((l.input_index, l.output_index, l.input_count, l.output_count), (1, 0, 4, 2));
}

#[test]
fn refused_bindings() {
    assert_eq!(select_bindings(&[]), Err(BindingError::NoInput));
    assert_eq!(select_bindings(&[b(false, true, 4)]), Err(BindingError::NoInput));
    assert_eq!(select_bindings(&[b(true, true, 4), b(true, true, 4)]), Err(BindingError::NoOutput));
    assert_eq!(
        select_bindings(&[b(true, false, 4), b(false, true, 4)]),
        Err(BindingError::NotOneFloatInputAndOutput)
    );
    assert_eq!(
        select_bindings(&[b(true, true, 4), b(false, true, 4), b(false, true, 4)]),
        Err(BindingError::NotOneFloatInputAndOutput)
    );
}

#[test]
fn input_length_is_checked() {
    let l = select_bindings(&[b(true, true, 12), b(false, true, 4)]).unwrap();
    assert_eq!(l.check_input_len(3), Ok(()));
    assert_eq!(l.check_input_len(4), Err(InputSizeMismatch { expected: 3, got: 4 }));
}
