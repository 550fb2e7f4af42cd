//! Encodings of the image-create and memory-allocate commands.

use vstd::prelude::*;
use crate::bytes;
use crate::stream;
use crate::stream::Writer;

verus! {

/// The command type of a memory allocation.
pub const CMD_ALLOCATE_MEMORY: u32 = 21;
/// The command type of an image creation.
pub const CMD_CREATE_IMAGE: u32 = 54;
/// The command flag that asks the host for a reply.
pub const CMD_FLAG_GENERATE_REPLY: u32 = 0x1;

pub const ST_MEMORY_ALLOCATE_INFO: i32 = 5;
pub const ST_IMAGE_CREATE_INFO: i32 = 14;
pub const ST_EXTERNAL_MEMORY_IMAGE_CREATE_INFO: i32 = 1000072001;
pub const ST_EXPORT_MEMORY_ALLOCATE_INFO: i32 = 1000072002;
pub const ST_MEMORY_DEDICATED_ALLOCATE_INFO: i32 = 1000127001;
pub const ST_IMAGE_FORMAT_LIST_CREATE_INFO: i32 = 1000147000;
pub const ST_IMPORT_MEMORY_RESOURCE_INFO_MESA: i32 = 1000384002;

pub const IMAGE_TYPE_2D: u32 = 1;
pub const SAMPLE_COUNT_1: u32 = 0x0000_0001;
pub const SHARING_MODE_EXCLUSIVE: u32 = 0;
pub const IMAGE_TILING_OPTIMAL: u32 = 0;
pub const IMAGE_TILING_LINEAR: u32 = 1;

/// Everything that two image creations can differ by. The rest is fixed: two
/// dimensions, one mip level, one layer, one sample, exclusive sharing.
#[derive(Clone, Copy, Debug, PartialEq, Eq)]
pub struct ImageCreateSpec {
    /// The external memory handle types; zero declares none.
    pub external_handle_type: u32,
    pub flags: u32,
    pub format: u32,
    pub width: u32,
    pub height: u32,
    pub tiling: u32,
    pub usage: u32,
    pub initial_layout: u32,
    /// How many of `view_formats` the format list names; zero attaches no list.
    pub view_format_count: u32,
    pub view_formats: [u32; 2],
}

/// The format list as an extension link, or a null link if it names no format.
pub open spec fn format_list_link(spec: ImageCreateSpec) -> Seq<u8> {
    if spec.view_format_count == 0 {
        bytes::present(false)
    } else {
        let count: u32 = if spec.view_format_count > 2 { 2 } else { spec.view_format_count };
        let formats = if count == 1 {
            bytes::le32(spec.view_formats@[0])
        } else {
            bytes::le32(spec.view_formats@[0]) + bytes::le32(spec.view_formats@[1])
        };
        bytes::present(true)
            + bytes::le32(ST_IMAGE_FORMAT_LIST_CREATE_INFO as u32)
            + bytes::present(false)
            + bytes::le32(count)
            + bytes::le64(count as u64)
            + formats
    }
}

/// The extension chain of an image creation. The link that a structure points at
/// precedes the structure's own fields.
pub open spec fn image_chain(spec: ImageCreateSpec) -> Seq<u8> {
    if spec.external_handle_type != 0 {
        bytes::present(true)
            + bytes::le32(ST_EXTERNAL_MEMORY_IMAGE_CREATE_INFO as u32)
            + format_list_link(spec)
            + bytes::le32(spec.external_handle_type)
    } else {
        format_list_link(spec)
    }
}

/// One whole image-create command.
pub open spec fn image_create_message(
    device_id: u64,
    image_id: u64,
    spec: ImageCreateSpec,
) -> Seq<u8> {
    Seq::<u8>::empty()
        + bytes::le32(CMD_CREATE_IMAGE)
        + bytes::le32(CMD_FLAG_GENERATE_REPLY)
        + bytes::le64(device_id)
        + bytes::present(true)
        + bytes::le32(ST_IMAGE_CREATE_INFO as u32)
        + image_chain(spec)
        + bytes::le32(spec.flags)
        + bytes::le32(IMAGE_TYPE_2D)
        + bytes::le32(spec.format)
        + bytes::le32(spec.width)
        + bytes::le32(spec.height)
        + bytes::le32(1)
        + bytes::le32(1)
        + bytes::le32(1)
        + bytes::le32(SAMPLE_COUNT_1)
        + bytes::le32(spec.tiling)
        + bytes::le32(spec.usage)
        + bytes::le32(SHARING_MODE_EXCLUSIVE)
        + bytes::le32(0)
        + bytes::present(false)
        + bytes::le32(spec.initial_layout)
        + bytes::present(false)
        + bytes::present(true)
        + bytes::le64(image_id)
}

fn encode_format_list_pnext(w: &mut Writer, spec: &ImageCreateSpec)
    requires
        old(w).wf(),
    ensures
        final(w).wf(),
        final(w)@ == old(w)@ + format_list_link(*spec),
{
    let count: u32 = if spec.view_format_count > 2 {
        2
    } else {
        spec.view_format_count
    };
    if count == 0 {
        w.count(false);
        return;
    }
    w.count(true);
    w.i32(ST_IMAGE_FORMAT_LIST_CREATE_INFO);
    w.count(false);
    w.u32(count);
    w.u64(count as u64);
    w.u32(spec.view_formats[0]);
    if count == 2 {
        w.u32(spec.view_formats[1]);
    }
    assert(w@ =~= old(w)@ + format_list_link(*spec));
}

fn encode_image_chain(w: &mut Writer, spec: &ImageCreateSpec)
    requires
        old(w).wf(),
    ensures
        final(w).wf(),
        final(w)@ == old(w)@ + image_chain(*spec),
{
    if spec.external_handle_type != 0 {
        w.count(true);
        w.i32(ST_EXTERNAL_MEMORY_IMAGE_CREATE_INFO);
        encode_format_list_pnext(w, spec);
        w.u32(spec.external_handle_type);
    } else {
        encode_format_list_pnext(w, spec);
    }
    assert(w@ =~= old(w)@ + image_chain(*spec));
}

/// Encodes one image-create command. The command always fits.
pub fn encode_image_create(device_id: u64, image_id: u64, spec: &ImageCreateSpec) -> (w: Writer)
    ensures
        w.wf(),
        w@.len() <= stream::MAX_CMD_BYTES,
        w@ == image_create_message(device_id, image_id, *spec),
{
    broadcast use bytes::group_lengths;
    let mut w = Writer::new();
    w.header(CMD_CREATE_IMAGE, CMD_FLAG_GENERATE_REPLY);
    w.u64(device_id);
    w.count(true);
    w.i32(ST_IMAGE_CREATE_INFO);
    encode_image_chain(&mut w, spec);
    w.u32(spec.flags);
    w.u32(IMAGE_TYPE_2D);
    w.u32(spec.format);
    w.u32(spec.width);
    w.u32(spec.height);
    w.u32(1);  // depth
    w.u32(1);  // mip levels
    w.u32(1);  // array layers
    w.u32(SAMPLE_COUNT_1);
    w.u32(spec.tiling);
    w.u32(spec.usage);
    w.u32(SHARING_MODE_EXCLUSIVE);
    w.u32(0);  // queue family count
    w.count(false);  // queue families
    w.u32(spec.initial_layout);
    w.count(false);  // allocator
    w.count(true);
    w.u64(image_id);
    assert(w@ == image_create_message(device_id, image_id, *spec));
    w
}

/// Which extension chain a memory allocation carries.
#[derive(Clone, Copy, PartialEq, Eq, Structural)]
pub enum MemoryPNext {
    /// No extension.
    Plain,
    Export { handle_type: u32 },
    /// An export whose link is a dedicated allocation for `image`.
    ExportDedicated { handle_type: u32, image: u64 },
    /// The memory's storage is the named resource.
    ImportResource { resource_id: u32 },
    /// An import whose link is a dedicated allocation for `image` or `buffer`.
    ImportResourceDedicated { resource_id: u32, image: u64, buffer: u64 },
}

/// The allocation chain of an optimally tiled image that is only exported.
pub fn optimal_gdi_memory_pnext(handle_type: u32) -> (p: MemoryPNext)
    ensures
        p == (MemoryPNext::Export { handle_type }),
{
    MemoryPNext::Export { handle_type }
}

/// Everything that two memory allocations can differ by.
#[derive(Clone, Copy)]
pub struct MemoryAllocateSpec {
    pub pnext: MemoryPNext,
    pub size: u64,
    pub memory_type_index: u32,
}

/// A dedicated allocation as the last link of a chain.
pub open spec fn dedicated_link(image: u64, buffer: u64) -> Seq<u8> {
    bytes::present(true)
        + bytes::le32(ST_MEMORY_DEDICATED_ALLOCATE_INFO as u32)
        + bytes::present(false)
        + bytes::le64(image)
        + bytes::le64(buffer)
}

/// A link of one word: its tag, the link it points at, then its own field.
pub open spec fn word_link(tag: i32, rest: Seq<u8>, word: u32) -> Seq<u8> {
    bytes::present(true) + bytes::le32(tag as u32) + rest + bytes::le32(word)
}

/// The extension chain of a memory allocation.
pub open spec fn memory_chain(pnext: MemoryPNext) -> Seq<u8> {
    match pnext {
        MemoryPNext::Plain => bytes::present(false),
        MemoryPNext::Export { handle_type } => word_link(
            ST_EXPORT_MEMORY_ALLOCATE_INFO,
            bytes::present(false),
            handle_type,
        ),
        MemoryPNext::ImportResource { resource_id } => word_link(
            ST_IMPORT_MEMORY_RESOURCE_INFO_MESA,
            bytes::present(false),
            resource_id,
        ),
        MemoryPNext::ImportResourceDedicated { resource_id, image, buffer } => word_link(
            ST_IMPORT_MEMORY_RESOURCE_INFO_MESA,
            dedicated_link(image, buffer),
            resource_id,
        ),
        MemoryPNext::ExportDedicated { handle_type, image } => word_link(
            ST_EXPORT_MEMORY_ALLOCATE_INFO,
            dedicated_link(image, 0),
            handle_type,
        ),
    }
}

/// One whole memory-allocate command.
pub open spec fn memory_allocate_message(
    device_id: u64,
    memory_id: u64,
    spec: MemoryAllocateSpec,
) -> Seq<u8> {
    Seq::<u8>::empty()
        + bytes::le32(CMD_ALLOCATE_MEMORY)
        + bytes::le32(CMD_FLAG_GENERATE_REPLY)
        + bytes::le64(device_id)
        + bytes::present(true)
        + bytes::le32(ST_MEMORY_ALLOCATE_INFO as u32)
        + memory_chain(spec.pnext)
        + bytes::le64(spec.size)
        + bytes::le32(spec.memory_type_index)
        + bytes::present(false)
        + bytes::present(true)
        + bytes::le64(memory_id)
}

fn encode_dedicated_link(w: &mut Writer, image: u64, buffer: u64)
    requires
        old(w).wf(),
    ensures
        final(w).wf(),
        final(w)@ == old(w)@ + dedicated_link(image, buffer),
{
    w.count(true);
    w.i32(ST_MEMORY_DEDICATED_ALLOCATE_INFO);
    w.count(false);
    w.u64(image);
    w.u64(buffer);
    assert(w@ =~= old(w)@ + dedicated_link(image, buffer));
}

fn encode_memory_chain(w: &mut Writer, pnext: MemoryPNext)
    requires
        old(w).wf(),
    ensures
        final(w).wf(),
        final(w)@ == old(w)@ + memory_chain(pnext),
{
    match pnext {
        MemoryPNext::Plain => w.count(false),
        MemoryPNext::Export { handle_type } => {
            w.count(true);
            w.i32(ST_EXPORT_MEMORY_ALLOCATE_INFO);
            w.count(false);
            w.u32(handle_type);
        },
        MemoryPNext::ImportResource { resource_id } => {
            w.count(true);
            w.i32(ST_IMPORT_MEMORY_RESOURCE_INFO_MESA);
            w.count(false);
            w.u32(resource_id);
        },
        MemoryPNext::ImportResourceDedicated { resource_id, image, buffer } => {
            w.count(true);
            w.i32(ST_IMPORT_MEMORY_RESOURCE_INFO_MESA);
            encode_dedicated_link(w, image, buffer);
            w.u32(resource_id);
        },
        MemoryPNext::ExportDedicated { handle_type, image } => {
            w.count(true);
            w.i32(ST_EXPORT_MEMORY_ALLOCATE_INFO);
            encode_dedicated_link(w, image, 0);
            w.u32(handle_type);
        },
    }
    assert(w@ =~= old(w)@ + memory_chain(pnext));
}

/// Encodes one memory-allocate command. The command always fits.
pub fn encode_memory_allocate(device_id: u64, memory_id: u64, spec: &MemoryAllocateSpec) -> (w:
    Writer)
    ensures
        w.wf(),
        w@.len() <= stream::MAX_CMD_BYTES,
        w@ == memory_allocate_message(device_id, memory_id, *spec),
{
    broadcast use bytes::group_lengths;
    let mut w = Writer::new();
    w.header(CMD_ALLOCATE_MEMORY, CMD_FLAG_GENERATE_REPLY);
    w.u64(device_id);
    w.count(true);
    w.i32(ST_MEMORY_ALLOCATE_INFO);
    encode_memory_chain(&mut w, spec.pnext);
    w.u64(spec.size);
    w.u32(spec.memory_type_index);
    w.count(false);  // allocator
    w.count(true);
    w.u64(memory_id);
    assert(w@ == memory_allocate_message(device_id, memory_id, *spec));
    w
}

} // verus!
