use chaos_core::tts::python_abi::torch_abi_of_name;
use chaos_core::tts::sampling::recent_repeats;
use chaos_core::tts::vad::VadError;
use chaos_core::tts::wav::{prompt_trim_start, vad_trim_window, window_samples};

#[test]
fn prompt_trim_start_is_bounded() {
    assert_eq!(prompt_trim_start(100, 30), 30);
    assert_eq!(prompt_trim_start(100, 300), 100);
}

#[test]
fn vad_window_pads_and_clamps() {
    // speech at 10..20 within 0..100, pad 5
    assert_eq!(vad_trim_window(0, 100, 100, 10, 20, 5), (5, 25));
    // pad beyond the edges
    assert_eq!(vad_trim_window(0, 100, 100, 2, 98, 5), (0, 100));
    // relative to a later start
    assert_eq!(vad_trim_window(40, 100, 100, 10, 20, 0), (50, 60));
}

#[test]
fn window_samples_slices() {
    let pcm = [1i16, 2, 3, 4, 5];
    assert_eq!(window_samples(&pcm, 1, 3), vec![2, 3]);
    assert!(window_samples(&pcm, 3, 3).is_empty());
    assert!(window_samples(&pcm, 4, 2).is_empty());
}

#[test]
fn repetitions_in_window() {
    let d = [7u32, 2, 2, 7, 2];
    assert_eq!(recent_repeats(&d, 3, 2), 2);
    assert_eq!(recent_repeats(&d, 10, 7), 2);
    assert_eq!(recent_repeats(&d, 0, 2), 0);
    assert_eq!(recent_repeats(&[], 4, 2), 0);
}

#[test]
fn vad_error_messages() {
    assert_eq!(VadError::InvalidArg("x".into()).message(), "invalid argument: x");
    assert_eq!(VadError::Backend("y".into()).message(), "vad backend error: y");
}

#[test]
fn torch_abi_from_extension_names() {
    assert_eq!(torch_abi_of_name("_C.cp310-win_amd64.pyd"), Some((3, 10, "cp310".to_string())));
    assert_eq!(torch_abi_of_name("_C.cp39-win_amd64.pyd"), Some((3, 9, "cp39".to_string())));
    assert_eq!(torch_abi_of_name("_C.cp3-x.pyd"), None);
    assert_eq!(torch_abi_of_name("cp3999.pyd"), None);
    assert_eq!(torch_abi_of_name("cp31"), Some((3, 1, "cp31".to_string())));
    assert_eq!(torch_abi_of_name("cp3"), None);
    assert_eq!(torch_abi_of_name("xcp311z"), Some((3, 11, "cp311".to_string())));
}
