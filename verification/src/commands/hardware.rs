//! The hardware panel.

use vstd::prelude::*;
use vstd::string::*;
use crate::text::{decimal, decimal_text};

verus! {

/// What is known of the machine. Amounts of memory are decimal numbers of
/// gigabytes with two places, in text.
#[derive(Debug)]
pub struct HardwareProfile {
    pub cpu_cores: u64,
    pub cpu_arch: String,
    pub ram_gb: String,
    pub gpu_vendor: Option<String>,
    pub vram_gb: Option<String>,
}

/// A panel of named values.
#[derive(Debug)]
pub struct DetailPanel {
    pub title: String,
    pub fields: Vec<(String, String)>,
}

/// The commands on hardware.
pub struct HardwareCommands;

/// What the fields of a panel are.
pub open spec fn fields_view(fields: Seq<(String, String)>) -> Seq<(Seq<char>, Seq<char>)> {
    fields.map_values(|field: (String, String)| (field.0@, field.1@))
}

/// A text that may be missing.
pub open spec fn or_none(text: Option<Seq<char>>) -> Seq<char> {
    match text {
        Some(text) => text,
        None => "None"@,
    }
}

/// The fields of the hardware panel.
pub open spec fn profile_fields(profile: HardwareProfile) -> Seq<(Seq<char>, Seq<char>)> {
    seq![
        ("CPU Cores"@, decimal_text(profile.cpu_cores as nat)),
        ("CPU Architecture"@, profile.cpu_arch@),
        ("RAM"@, profile.ram_gb@ + " GB"@),
        (
            "GPU Vendor"@,
            or_none(
                match profile.gpu_vendor {
                    Some(vendor) => Some(vendor@),
                    None => None,
                },
            ),
        ),
        (
            "VRAM"@,
            or_none(
                match profile.vram_gb {
                    Some(amount) => Some(amount@ + " GB"@),
                    None => None,
                },
            ),
        ),
    ]
}

/// An amount of memory with its unit.
fn gigabytes(amount: &str) -> (r: String)
    ensures
        r@ == amount@ + " GB"@,
{
    let mut out = amount.to_owned();
    out.append(" GB");
    out
}

impl HardwareCommands {
    /// The fields of the hardware panel.
    pub fn hardware_fields(profile: &HardwareProfile) -> (r: Vec<(String, String)>)
        ensures
            fields_view(r@) == profile_fields(*profile),
    {
        let mut fields: Vec<(String, String)> = Vec::new();
        fields.push(("CPU Cores".to_owned(), decimal(profile.cpu_cores)));
        fields.push(("CPU Architecture".to_owned(), profile.cpu_arch.clone()));
        fields.push(("RAM".to_owned(), gigabytes(profile.ram_gb.as_str())));
        fields.push(
            (
                "GPU Vendor".to_owned(),
                match &profile.gpu_vendor {
                    Some(vendor) => vendor.clone(),
                    None => "None".to_owned(),
                },
            ),
        );
        fields.push(
            (
                "VRAM".to_owned(),
                match &profile.vram_gb {
                    Some(amount) => gigabytes(amount.as_str()),
                    None => "None".to_owned(),
                },
            ),
        );
        proof {
            assert(fields_view(fields@) =~= profile_fields(*profile));
        }
        fields
    }

    /// The hardware panel.
    pub fn show(profile: &HardwareProfile) -> (r: DetailPanel)
        ensures
            r.title@ == "Hardware Profile"@,
            fields_view(r.fields@) == profile_fields(*profile),
    {
        DetailPanel {
            title: "Hardware Profile".to_owned(),
            fields: HardwareCommands::hardware_fields(profile),
        }
    }
}

/// The panel has a field for each thing that is known of the machine, in a fixed order:
/// the number of cores, the architecture, the memory with its unit, the maker of the
/// graphics card, and its memory with its unit. What is not known reads `None`.
pub proof fn law_panel_shows_each_thing(
    profile: &HardwareProfile,
    fields: Vec<(String, String)>,
    panel: DetailPanel,
)
    requires
        call_ensures(HardwareCommands::hardware_fields, (profile,), fields),
        call_ensures(HardwareCommands::show, (profile,), panel),
    ensures
        fields@.len() == 5,
        fields@[0].0@ == "CPU Cores"@ && fields@[0].1@ == decimal_text(profile.cpu_cores as nat),
        fields@[1].0@ == "CPU Architecture"@ && fields@[1].1@ == profile.cpu_arch@,
        fields@[2].0@ == "RAM"@ && fields@[2].1@ == profile.ram_gb@ + " GB"@,
        fields@[3].0@ == "GPU Vendor"@,
        profile.gpu_vendor matches Some(vendor) ==> fields@[3].1@ == vendor@,
        profile.gpu_vendor is None ==> fields@[3].1@ == "None"@,
        fields@[4].0@ == "VRAM"@,
        profile.vram_gb matches Some(amount) ==> fields@[4].1@ == amount@ + " GB"@,
        profile.vram_gb is None ==> fields@[4].1@ == "None"@,
        panel.title@ == "Hardware Profile"@,
        panel.fields@.len() == 5,
        forall|i: int|
            0 <= i < 5 ==> (#[trigger] panel.fields@[i]).0@ == fields@[i].0@ && panel.fields@[i].1@
                == fields@[i].1@,
{
    let shown = profile_fields(*profile);
    assert(fields_view(fields@).len() == 5);
    assert(fields_view(panel.fields@).len() == 5);
    assert forall|i: int| 0 <= i < 5 implies ((#[trigger] fields@[i]).0@, fields@[i].1@)
        == shown[i] by {
        assert(fields_view(fields@)[i] == shown[i]);
    }
    assert forall|i: int| 0 <= i < 5 implies ((#[trigger] panel.fields@[i]).0@, panel.fields@[i].1@)
        == shown[i] by {
        assert(fields_view(panel.fields@)[i] == shown[i]);
    }
    assert(shown[0] == ("CPU Cores"@, decimal_text(profile.cpu_cores as nat)));
    assert((fields@[0].0@, fields@[0].1@) == shown[0]);
    assert((fields@[1].0@, fields@[1].1@) == shown[1]);
    assert((fields@[2].0@, fields@[2].1@) == shown[2]);
    assert((fields@[3].0@, fields@[3].1@) == shown[3]);
    assert((fields@[4].0@, fields@[4].1@) == shown[4]);
}

} // verus!
