//! Pure decision logic of a paravirtual display and render driver: wire
//! encodings, admission rules, and the bounded ledgers behind them.

pub mod allocation_admission;
pub mod allocation_identity;
pub mod bytes;
pub mod copied_texels;
pub mod copy_words;
pub mod display;
pub mod image_words;
pub mod memory_type;
pub mod native_fence_lifecycle;
pub mod native_render;
pub mod ordered_engine;
pub mod outer_execution;
pub mod page;
pub mod present_copy;
pub mod present_dma_header;
pub mod producer_completion;
pub mod producer_effects;
pub mod producer_history;
pub mod protocol;
pub mod render_batches;
pub mod ring_index;
pub mod scanout_lease;
pub mod scanout_retire;
pub mod session_admission;
pub mod session_transport;
pub mod sorted_splice;
pub mod stream;
pub mod stream_ring;
pub mod system_page_join;
pub mod translation_session;
pub mod transport_words;
pub mod umd_private_query;
pub mod venus;
pub mod venus_batches;
pub mod venus_controls;
pub mod venus_encodings;
pub mod venus_executor;
pub mod venus_grammar;
pub mod venus_prefix;
pub mod venus_queue_encodings;
pub mod venus_refusals;
pub mod venus_sequence;
pub mod vsync_deadline;

pub use crate::display::{
    gate_active, gate_pack, gate_seq, DisplayMode, ScanoutFormat, FALLBACK_DISPLAY_HEIGHT,
    FALLBACK_DISPLAY_WIDTH, MIN_DISPLAY_HEIGHT, MIN_DISPLAY_WIDTH,
};
pub use crate::memory_type::{
    choose_device_local_memory_type, choose_host_visible_memory_type,
    choose_importable_memory_type, choose_strict_device_local_memory_type, MemoryTypeChoice,
    MEMORY_PROPERTY_DEVICE_LOCAL, MEMORY_PROPERTY_HOST_COHERENT, MEMORY_PROPERTY_HOST_VISIBLE,
    VK_MAX_MEMORY_TYPES,
};
pub use crate::page::{
    cross_adapter_pitch, round_up_page, seq_read, window_range, Pfn, SeqRead,
    CROSS_ADAPTER_PITCH_ALIGN, PAGE_BYTES, SEQ_READ_ATTEMPTS,
};
pub use crate::sorted_splice::sorted_splice_range;
pub use crate::stream::{StreamWriter, Writer, MAX_CMD_BYTES};
pub use crate::venus::{
    encode_image_create, encode_memory_allocate, optimal_gdi_memory_pnext, ImageCreateSpec,
    MemoryAllocateSpec, MemoryPNext, CMD_ALLOCATE_MEMORY, CMD_CREATE_IMAGE,
    CMD_FLAG_GENERATE_REPLY, IMAGE_TILING_LINEAR, IMAGE_TILING_OPTIMAL, IMAGE_TYPE_2D,
    SAMPLE_COUNT_1, SHARING_MODE_EXCLUSIVE, ST_EXPORT_MEMORY_ALLOCATE_INFO,
    ST_EXTERNAL_MEMORY_IMAGE_CREATE_INFO, ST_IMAGE_CREATE_INFO, ST_IMAGE_FORMAT_LIST_CREATE_INFO,
    ST_IMPORT_MEMORY_RESOURCE_INFO_MESA, ST_MEMORY_ALLOCATE_INFO,
    ST_MEMORY_DEDICATED_ALLOCATE_INFO,
};
