//! The command line: which GPU is meant, and how GPUs are listed.
use vstd::prelude::*;

use crate::gpu_info::GpuInfo;
#[allow(unused_imports)]
use crate::gpu_info::GpuView;
use crate::score::round;
#[allow(unused_imports)]
use crate::score::rounded;
#[allow(unused_imports)]
use crate::text::{decimal, hex4, parsed_usize, texts};
use crate::text::{parse_usize, push_decimal, push_hex4, same_text};

verus! {

/// Whether an argument asks for the list alone.
pub open spec fn asks_for_list(arg: Seq<char>) -> bool {
    arg == "--list"@ || arg == "-l"@
}

/// Whether the list alone is asked for.
pub fn wants_list(args: &Vec<String>) -> (wants: bool)
    ensures
        wants == exists|i: int| 0 <= i < args.len() && asks_for_list((#[trigger] args[i])@),
{
    let mut i: usize = 0;
    while i < args.len()
        invariant
            i <= args.len(),
            forall|j: int| 0 <= j < i ==> !asks_for_list((#[trigger] args[j])@),
        decreases args.len() - i,
    {
        if same_text(args[i].as_str(), "--list") || same_text(args[i].as_str(), "-l") {
            assert(asks_for_list(args[i as int]@));
            return true;
        }
        assert(!asks_for_list(args[i as int]@));
        i = i + 1;
    }
    false
}

/// The number that follows an argument that names a device.
pub open spec fn device_at(args: Seq<Seq<char>>, i: int) -> Option<usize> {
    if (args[i] == "--device"@ || args[i] == "-d"@) && i + 1 < args.len() {
        parsed_usize(args[i + 1])
    } else {
        None
    }
}

/// The warning about a number that no GPU has.
pub open spec fn bad_index_warning(index: usize, gpu_count: usize) -> Seq<char> {
    "Chỉ số card '"@ + decimal(index as nat) + "' không hợp lệ! Có "@ + decimal(gpu_count as nat)
        + " GPU (0.."@ + decimal((gpu_count - 1) as nat) + ")"@
}

/// The first device that the arguments from a place on name and that exists,
/// and the warnings about those before it that do not.
pub open spec fn named_device(args: Seq<Seq<char>>, gpu_count: usize, from: nat) -> (
    Seq<Seq<char>>,
    Option<usize>,
)
    decreases args.len() - from,
{
    if from >= args.len() {
        (seq![], None)
    } else {
        let rest = named_device(args, gpu_count, from + 1);
        match device_at(args, from as int) {
            Some(index) => if index < gpu_count {
                (seq![], Some(index))
            } else {
                (seq![bad_index_warning(index, gpu_count)] + rest.0, rest.1)
            },
            None => rest,
        }
    }
}

/// How a GPU is chosen: the arguments name it, there is only one, or the user
/// is asked.
#[derive(Debug, Clone, Copy, PartialEq, Eq, Structural)]
pub enum Choice {
    Named(usize),
    OnlyOne,
    Ask,
}

/// How a GPU is chosen, and the warnings on the way.
pub struct Selection {
    pub warnings: Vec<String>,
    pub choice: Choice,
}

/// How a GPU is chosen where the arguments name this one, or none.
pub open spec fn choice_of(named: Option<usize>, gpu_count: usize) -> Choice {
    match named {
        Some(index) => Choice::Named(index),
        None => if gpu_count == 1 {
            Choice::OnlyOne
        } else {
            Choice::Ask
        },
    }
}

fn read_device(args: &Vec<String>, i: usize) -> (index: Option<usize>)
    requires
        i < args.len(),
    ensures
        index == device_at(texts(args@), i as int),
{
    if (same_text(args[i].as_str(), "--device") || same_text(args[i].as_str(), "-d")) && i + 1
        < args.len() {
        parse_usize(args[i + 1].as_str())
    } else {
        None
    }
}

/// Resolves which GPU is meant.
pub fn resolve_selection(gpu_count: usize, args: &Vec<String>) -> (selection: Selection)
    requires
        gpu_count > 0,
    ensures
        texts(selection.warnings@) == named_device(texts(args@), gpu_count, 0).0,
        selection.choice == choice_of(named_device(texts(args@), gpu_count, 0).1, gpu_count),
        selection.choice == match named_device(texts(args@), gpu_count, 0).1 {
            Some(index) => Choice::Named(index),
            None => if gpu_count == 1 {
                Choice::OnlyOne
            } else {
                Choice::Ask
            },
        },
        selection.choice matches Choice::Named(index) ==> index < gpu_count,
{
    let mut warnings: Vec<String> = Vec::new();
    let mut i: usize = 0;
    let ghost all = texts(args@);
    let ghost expected = named_device(all, gpu_count, 0);
    assert(texts(warnings@) =~= seq![]);
    assert(expected.0 =~= texts(warnings@) + named_device(all, gpu_count, 0).0);
    while i < args.len()
        invariant
            i <= args.len(),
            gpu_count > 0,
            all == texts(args@),
            expected == named_device(all, gpu_count, 0),
            expected.0 == texts(warnings@) + named_device(all, gpu_count, i as nat).0,
            expected.1 == named_device(all, gpu_count, i as nat).1,
        decreases args.len() - i,
    {
        match read_device(args, i) {
            Some(index) => {
                if index < gpu_count {
                    assert(texts(warnings@) =~= expected.0);
                    return Selection { warnings, choice: Choice::Named(index) };
                }
                let mut warning = "Chỉ số card '".to_string();
                push_decimal(&mut warning, index as u128);
                warning.append("' không hợp lệ! Có ");
                push_decimal(&mut warning, gpu_count as u128);
                warning.append(" GPU (0..");
                push_decimal(&mut warning, (gpu_count - 1) as u128);
                warning.append(")");
                assert(warning@ =~= bad_index_warning(index, gpu_count));
                let ghost before = warnings@;
                warnings.push(warning);
                proof {
                    assert(texts(warnings@) =~= texts(before).push(
                        bad_index_warning(index, gpu_count),
                    ));
                    assert(texts(warnings@) + named_device(all, gpu_count, (i + 1) as nat).0
                        =~= expected.0);
                }
            },
            None => {},
        }
        i = i + 1;
    }
    assert(texts(warnings@) =~= expected.0);
    let choice: Choice = if gpu_count == 1 {
        Choice::OnlyOne
    } else {
        Choice::Ask
    };
    Selection { warnings, choice }
}

/// The GPU that an answer means: without one, the first.
pub fn answered(answer: Option<usize>) -> (index: usize)
    ensures
        index == match answer {
            Some(index) => index,
            None => 0,
        },
{
    match answer {
        Some(index) => index,
        None => 0,
    }
}

/// The line of a GPU in the menu.
pub open spec fn menu_item(gpu: GpuView) -> Seq<char> {
    gpu.name + " ("@ + gpu.device_type + ")"@
}

/// The lines of the menu.
pub fn menu_items(gpus: &Vec<GpuInfo>) -> (items: Vec<String>)
    ensures
        items.len() == gpus.len(),
        forall|i: int| 0 <= i < gpus.len() ==> (#[trigger] items[i])@ == menu_item(gpus[i]@),
{
    let mut items: Vec<String> = Vec::new();
    let mut i: usize = 0;
    while i < gpus.len()
        invariant
            i <= gpus.len(),
            items.len() == i,
            forall|j: int| 0 <= j < i ==> (#[trigger] items[j])@ == menu_item(gpus[j]@),
        decreases gpus.len() - i,
    {
        let mut item = String::new();
        item.append(gpus[i].name.as_str());
        item.append(" (");
        item.append(gpus[i].device_type.as_str());
        item.append(")");
        assert(item@ =~= menu_item(gpus[i as int]@));
        items.push(item);
        i = i + 1;
    }
    items
}

/// An amount of memory in megabytes and, to a tenth, in gigabytes.
pub open spec fn memory_view(mb: u64) -> Seq<char> {
    let tenths = rounded(mb as nat * 10, 1024);
    decimal(mb as nat) + " MB ("@ + decimal(tenths / 10) + "."@ + decimal(tenths % 10) + " GB)"@
}

fn memory_text(mb: u64) -> (text: String)
    ensures
        text@ == memory_view(mb),
{
    let tenths: u128 = round(mb as u128 * 10, 1024);
    let mut text = String::new();
    push_decimal(&mut text, mb as u128);
    text.append(" MB (");
    push_decimal(&mut text, tenths / 10);
    text.append(".");
    push_decimal(&mut text, tenths % 10);
    text.append(" GB)");
    assert(text@ =~= memory_view(mb));
    text
}

/// The texts of a GPU in the list.
pub struct Listing {
    pub index: String,
    pub vendor_code: String,
    pub memory: Option<String>,
}

/// The texts of a GPU in the list: its number in brackets, its vendor's id in
/// hexadecimal, and its memory where that is known.
pub fn listing(gpu: &GpuInfo) -> (listing: Listing)
    ensures
        listing.index@ == "["@ + decimal(gpu@.device_index as nat) + "]"@,
        listing.vendor_code@ == "(0x"@ + hex4(gpu@.vendor_id as nat) + ")"@,
        listing.memory is Some <==> gpu@.dedicated_vram_mb is Some,
        listing.memory matches Some(memory) ==> memory@ == memory_view(
            gpu@.dedicated_vram_mb->0,
        ),
{
    let mut index = "[".to_string();
    push_decimal(&mut index, gpu.device_index as u128);
    index.append("]");
    let mut vendor_code = "(0x".to_string();
    push_hex4(&mut vendor_code, gpu.vendor_id);
    vendor_code.append(")");
    let memory: Option<String> = match gpu.dedicated_vram_mb {
        Some(mb) => Some(memory_text(mb)),
        None => None,
    };
    Listing { index, vendor_code, memory }
}

} // verus!
