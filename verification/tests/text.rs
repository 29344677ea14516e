use audio_switch::error::AudioSwitchError;
use audio_switch::utf16::{encode_utf16, from_utf16_lossy, string_to_tip, wide_null, TIP_LEN};

const SAMPLES: [&str; 7] = [
    "",
    "Speakers (Realtek Audio)",
    "Kopfhörer",
    "ヘッドホン",
    "\u{FFFF}\u{E000}\u{D7FF}",
    "🎧 Arctis 7",
    "\u{10000}\u{10FFFF}",
];

#[test]
fn encoding_agrees_with_std() {
    for s in SAMPLES {
        let expected: Vec<u16> = s.encode_utf16().collect();
        assert_eq!(encode_utf16(s), expected);
    }
}

#[test]
fn encoding_splits_supplementary_characters() {
    assert_eq!(encode_utf16("a🎧"), vec![0x61, 0xD83C, 0xDFA7]);
}

#[test]
fn wide_null_ends_in_one_nul() {
    assert_eq!(wide_null("Exit"), vec![0x45, 0x78, 0x69, 0x74, 0]);
    assert_eq!(wide_null(""), vec![0]);
}

#[test]
fn decoding_undoes_encoding() {
    for s in SAMPLES {
        assert_eq!(from_utf16_lossy(&encode_utf16(s)), s);
    }
}

#[test]
fn decoding_agrees_with_std_on_broken_input() {
    let samples: [&[u16]; 9] = [
        &[],
        &[0x41],
        &[0xD83C],
        &[0xDFA7],
        &[0xDFA7, 0xD83C],
        &[0xD83C, 0xD83C, 0xDFA7],
        &[0xD83C, 0x41, 0xDFA7],
        &[0xD834, 0xDD1E, 0x6d, 0x75, 0x73, 0xDD1E, 0x69, 0x63, 0xD834],
        &[0xD7FF, 0xE000, 0xDBFF, 0xDFFF, 0xD800, 0xDC00, 0xDC00],
    ];
    for units in samples {
        assert_eq!(from_utf16_lossy(units), String::from_utf16_lossy(units));
    }
}

#[test]
fn unpaired_surrogates_are_replaced_one_by_one() {
    assert_eq!(
        from_utf16_lossy(&[0xD834, 0xDD1E, 0x6d, 0xDD1E, 0xD834, 0xD834]),
        "𝄞m\u{FFFD}\u{FFFD}\u{FFFD}"
    );
}

#[test]
fn tip_is_padded_with_nuls() {
    let tip: [u16; 128] = string_to_tip("Hi");
    assert_eq!(tip[0], 0x48);
    assert_eq!(tip[1], 0x69);
    assert!(tip[2..].iter().all(|u| *u == 0));
    assert_eq!(tip.len(), TIP_LEN);
}

#[test]
fn longest_tip_keeps_its_nul() {
    let name: String = "x".repeat(TIP_LEN - 1);
    let tip: [u16; 128] = string_to_tip(&name);
    assert!(tip[..127].iter().all(|u| *u == 0x78));
    assert_eq!(tip[127], 0);
}

#[test]
fn tip_gives_its_text_back() {
    for s in SAMPLES {
        let tip: [u16; 128] = string_to_tip(s);
        let end: usize = tip.iter().position(|u| *u == 0).unwrap();
        assert_eq!(from_utf16_lossy(&tip[..end]), s);
    }
}

#[test]
fn errors_in_words() {
    assert_eq!(AudioSwitchError::CurrentDeviceNotFound.message(), "Current device not found");
    assert_eq!(
        AudioSwitchError::UnsupportedPropertyType { vt: 0 }.message(),
        "Unsupported PROPVARIANT type: VARENUM(0)"
    );
    assert_eq!(
        AudioSwitchError::UnsupportedPropertyType { vt: 65530 }.message(),
        "Unsupported PROPVARIANT type: VARENUM(65530)"
    );
    assert_eq!(
        AudioSwitchError::UnsupportedFormFactor { property: "PROPVARIANT { type: 0 }".to_string() }
            .message(),
        "Unsupported PROPVARIANT type for form factor: PROPVARIANT { type: 0 }"
    );
    assert_eq!(
        AudioSwitchError::IconNotLoaded { name: "audio_icon".to_string() }.message(),
        "Failed to load icon: audio_icon"
    );
}
