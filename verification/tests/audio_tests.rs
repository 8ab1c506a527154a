use fast_mic::audio::{name_prefers_cable, select_output_device, upmix_frames};

#[test]
fn cable_prefix_match() {
    assert!(name_prefers_cable("CABLE Input"));
    assert!(name_prefers_cable("CABLE Input (VB-Audio Virtual Cable)"));
    assert!(!name_prefers_cable("CABLE Inpu"));
    assert!(!name_prefers_cable("cable input"));
    assert!(!name_prefers_cable("Speakers"));
    assert!(!name_prefers_cable(""));
}

#[test]
fn selection_prefers_the_first_cable_device() {
    let names = vec![
        "Speakers".to_string(),
        "CABLE Input (VB-Audio Virtual Cable)".to_string(),
        "CABLE Input 2".to_string(),
    ];
    assert_eq!(select_output_device(&names), Some(1));
}

#[test]
fn selection_falls_back_to_the_default_device() {
    let names = vec!["Speakers".to_string(), "HDMI Output".to_string()];
    assert_eq!(select_output_device(&names), None);
    assert_eq!(select_output_device(&Vec::new()), None);
}

#[test]
fn upmix_replicates_each_sample_per_channel() {
    assert_eq!(upmix_frames(&vec![1, 2, 3], 2), vec![1, 1, 2, 2, 3, 3]);
    assert_eq!(upmix_frames(&vec![-5, 7], 1), vec![-5, 7]);
    assert_eq!(upmix_frames(&vec![9], 4), vec![9, 9, 9, 9]);
    assert_eq!(upmix_frames(&Vec::new(), 2), Vec::<i16>::new());
}
