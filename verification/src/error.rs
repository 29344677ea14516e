//! What can go wrong between the system's answers and the tray icon.

use vstd::prelude::*;

verus! {

/// Why a request cannot be carried out.
#[derive(Debug)]
pub enum AudioSwitchError {
    /// The system's default device is not among the known ones.
    CurrentDeviceNotFound,
    /// A name property holds no string but something with this type tag.
    UnsupportedPropertyType { vt: u16 },
    /// A form factor property holds no number but this.
    UnsupportedFormFactor { property: String },
    /// The system has no icon of this name.
    IconNotLoaded { name: String },
}

/// The digit for a number below ten.
pub open spec fn digit(n: nat) -> char {
    (0x30 + n) as char
}

/// A number in decimal notation.
pub open spec fn decimal(n: nat) -> Seq<char>
    decreases n,
{
    if n < 10 {
        seq![digit(n)]
    } else {
        decimal(n / 10).push(digit(n % 10))
    }
}

/// What an error says.
pub open spec fn error_text(e: AudioSwitchError) -> Seq<char> {
    match e {
        AudioSwitchError::CurrentDeviceNotFound => "Current device not found"@,
        AudioSwitchError::UnsupportedPropertyType { vt } => {
            "Unsupported PROPVARIANT type: VARENUM("@ + decimal(vt as nat) + ")"@
        },
        AudioSwitchError::UnsupportedFormFactor { property } => {
            "Unsupported PROPVARIANT type for form factor: "@ + property@
        },
        AudioSwitchError::IconNotLoaded { name } => "Failed to load icon: "@ + name@,
    }
}

/// Appends a number in decimal notation.
fn push_decimal(s: &mut String, n: u16)
    ensures
        final(s)@ == old(s)@ + decimal(n as nat),
    decreases n,
{
    if n >= 10 {
        push_decimal(s, n / 10);
    }
    let d: u8 = (n % 10) as u8;
    s.push((0x30 + d) as char);
    assert(s@ == old(s)@ + decimal(n as nat));
}

impl AudioSwitchError {
    /// The error in words.
    pub fn message(&self) -> (text: String)
        ensures
            text@ == error_text(*self),
            self is CurrentDeviceNotFound ==> text@ == "Current device not found"@,
            self matches AudioSwitchError::UnsupportedPropertyType { vt } ==> text@
                == "Unsupported PROPVARIANT type: VARENUM("@ + decimal(*vt as nat) + ")"@,
            self matches AudioSwitchError::UnsupportedFormFactor { property } ==> text@
                == "Unsupported PROPVARIANT type for form factor: "@ + property@,
            self matches AudioSwitchError::IconNotLoaded { name } ==> text@
                == "Failed to load icon: "@ + name@,
    {
        match self {
            AudioSwitchError::CurrentDeviceNotFound => "Current device not found".to_owned(),
            AudioSwitchError::UnsupportedPropertyType { vt } => {
                let mut text: String = "Unsupported PROPVARIANT type: VARENUM(".to_owned();
                push_decimal(&mut text, *vt);
                text.append(")");
                text
            },
            AudioSwitchError::UnsupportedFormFactor { property } => {
                let mut text: String = "Unsupported PROPVARIANT type for form factor: ".to_owned();
                text.append(property.as_str());
                text
            },
            AudioSwitchError::IconNotLoaded { name } => {
                let mut text: String = "Failed to load icon: ".to_owned();
                text.append(name.as_str());
                text
            },
        }
    }
}

/// The number that decimal digits stand for.
pub open spec fn read_decimal(digits: Seq<char>) -> int
    decreases digits.len(),
{
    if digits.len() == 0 {
        0
    } else {
        10 * read_decimal(digits.drop_last()) + (digits.last() as u32 - 0x30)
    }
}

/// The decimal notation of a number consists of the digits `0` to `9`, the first of them not
/// `0` unless the number is, and reads back as the number.
pub proof fn law_decimal_reads_back(n: nat)
    ensures
        decimal(n).len() > 0,
        forall|i: int|
            0 <= i < decimal(n).len() ==> 0x30 <= (#[trigger] decimal(n)[i]) as u32 <= 0x39,
        decimal(n)[0] == '0' ==> n == 0,
        read_decimal(decimal(n)) == n,
    decreases n,
{
    if n >= 10 {
        law_decimal_reads_back(n / 10);
        let front = decimal(n / 10);
        assert(decimal(n).drop_last() =~= front);
        assert(decimal(n)[0] == front[0]);
        assert forall|i: int| 0 <= i < decimal(n).len() implies 0x30 <= (
        #[trigger] decimal(n)[i]) as u32 <= 0x39 by {
            if i < front.len() {
                assert(decimal(n)[i] == front[i]);
            }
        }
    } else {
        assert(decimal(n).drop_last() =~= Seq::<char>::empty());
        assert(read_decimal(Seq::<char>::empty()) == 0);
    }
}

/// Each error says what it is about, and what the system gave stands in it as it is.
pub proof fn law_error_texts(e: AudioSwitchError)
    ensures
        e is CurrentDeviceNotFound ==> error_text(e) == "Current device not found"@,
        e matches AudioSwitchError::UnsupportedPropertyType { vt } ==> error_text(e)
            == "Unsupported PROPVARIANT type: VARENUM("@ + decimal(vt as nat) + ")"@
            && read_decimal(decimal(vt as nat)) == vt,
        e matches AudioSwitchError::UnsupportedFormFactor { property } ==> error_text(e)
            == "Unsupported PROPVARIANT type for form factor: "@ + property@,
        e matches AudioSwitchError::IconNotLoaded { name } ==> error_text(e)
            == "Failed to load icon: "@ + name@,
{
    if let AudioSwitchError::UnsupportedPropertyType { vt } = e {
        law_decimal_reads_back(vt as nat);
    }
}

} // verus!
