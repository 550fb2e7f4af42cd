use kmd_logic::venus_executor::{
    push_resource, validate_venus_a7_outer_stream, validate_venus_control_stream, validate_venus_stream,
    A7CommandKind, A7Parsed, Cursor, VenusA7Admission, VenusCommandClass, VenusControlAdmission,
    VenusOperand, VenusReject, COMMAND_GENERATE_REPLY, OPERAND_KIND_HOST_RESOURCE_ID32,
    OP_ALLOCATE_MEMORY, OP_FREE_MEMORY, OP_QUEUE_BIND_SPARSE, OP_QUEUE_SUBMIT, OP_QUEUE_SUBMIT2,
    OP_SET_REPLY, ST_BIND_SPARSE_INFO, ST_COMMAND_BUFFER_SUBMIT_INFO,
    ST_DEVICE_GROUP_BIND_SPARSE_INFO, ST_DEVICE_GROUP_SUBMIT_INFO,
    ST_IMPORT_MEMORY_RESOURCE_INFO_MESA, ST_MEMORY_ALLOCATE_INFO, ST_PROTECTED_SUBMIT_INFO,
    ST_SEMAPHORE_SUBMIT_INFO, ST_SUBMIT_INFO, ST_SUBMIT_INFO2, ST_TIMELINE_SEMAPHORE_SUBMIT_INFO,
};
use kmd_logic::venus_sequence::{
    OP_CREATE_BUFFER, OP_CREATE_IMAGE, OP_DESTROY_BUFFER, OP_DESTROY_IMAGE,
    OP_GET_BUFFER_MEMORY_REQUIREMENTS2, OP_GET_IMAGE_MEMORY_REQUIREMENTS2,
};

/// A command schema for the shapes below: it walks one command at a time and says
/// what each is.
struct Schema<'a> {
    c: Cursor<'a>,
    reply_size: u64,
    operands: [VenusOperand; 4],
    count: usize,
}

impl Schema<'_> {
    fn skip(&mut self, n: usize) -> Result<(), VenusReject> {
        self.c.skip(n)
    }

    fn word(&mut self) -> Result<u32, VenusReject> {
        self.c.u32()
    }

    fn long(&mut self) -> Result<u64, VenusReject> {
        self.c.u64()
    }

    /// The extension chain of an output structure: tags only.
    fn chain(&mut self) -> Result<u32, VenusReject> {
        let mut links = 0;
        while self.c.pointer()? {
            self.word()?;
            links += 1;
            if links > 128 {
                return Err(VenusReject::UnsupportedChain);
            }
        }
        Ok(links)
    }

    fn exact_reply(&self, expected: u64) -> Result<(), VenusReject> {
        if self.reply_size == expected {
            Ok(())
        } else {
            Err(VenusReject::BadArrayCount)
        }
    }

    fn array(&mut self, count: u32, stride: usize) -> Result<(), VenusReject> {
        if self.c.array(count)? {
            self.c.repeat_skip(count, stride)
        } else if count != 0 {
            Err(VenusReject::BadArrayCount)
        } else {
            Ok(())
        }
    }

    fn allocate(&mut self) -> Result<(u64, u32), VenusReject> {
        self.skip(8 + 8 + 4 + 8 + 4 + 8)?;
        let payload_offset = self.c.offset_u32()?;
        if self.word()? != 0 {
            return Err(VenusReject::NonZeroResourceOperand);
        }
        self.count = push_resource(&mut self.operands, self.count, payload_offset, 4)?;
        let size = self.long()?;
        let memory_type_index = self.word()?;
        self.skip(8 + 8 + 8)?;
        Ok((size, memory_type_index))
    }

    fn create_buffer(&mut self) -> Result<(u64, u64), VenusReject> {
        let device = self.long()?;
        self.skip(8 + 4)?;
        if self.long()? != 0 {
            self.skip(4 + 8 + 4)?;
        }
        self.skip(4 + 8 + 4 + 4)?;
        let families = self.word()?;
        self.array(families, 4)?;
        self.skip(8 + 8)?;
        Ok((device, self.long()?))
    }

    fn create_image(&mut self) -> Result<(u64, u64), VenusReject> {
        let device = self.long()?;
        self.skip(8 + 4)?;
        if self.long()? != 0 {
            self.skip(4 + 8)?;
            let formats = self.word()?;
            self.array(formats, 4)?;
        }
        self.skip(12 * 4)?;
        let families = self.word()?;
        self.array(families, 4)?;
        self.skip(4 + 8 + 8)?;
        Ok((device, self.long()?))
    }

    fn query(&mut self) -> Result<(u64, u64), VenusReject> {
        let device = self.long()?;
        self.skip(8 + 4 + 8)?;
        let object = self.long()?;
        self.skip(8 + 4)?;
        let links = self.chain()?;
        self.exact_reply(44 + 20 * links as u64)?;
        Ok((device, object))
    }

    fn update_descriptor_sets(&mut self) -> Result<(), VenusReject> {
        self.skip(8)?;
        let writes = self.word()?;
        if self.long()? != writes as u64 {
            return Err(VenusReject::BadArrayCount);
        }
        for _ in 0..writes {
            self.skip(4 + 8 + 8 + 4 + 4)?;
            let count = self.word()?;
            self.skip(4)?;
            self.array(count, 20)?;
            self.skip(8 + 8)?;
        }
        let copies = self.word()?;
        self.array(copies, 0)
    }

    fn clear_color(&mut self) -> Result<(), VenusReject> {
        self.skip(8 + 8 + 4 + 8 + 4)?;
        self.array(4, 4)?;
        let ranges = self.word()?;
        self.array(ranges, 20)
    }

    fn command(&mut self) -> Result<A7Parsed, VenusReject> {
        let opcode = self.word()?;
        self.skip(4)?;
        let mut kind = A7CommandKind::PureControl;
        let mut identity = (0, 0);
        let mut allocation = (0, 0);
        match opcode {
            14 => {
                self.skip(8)?;
                if self.long()? != 0 {
                    return Err(VenusReject::BadArrayCount);
                }
                self.skip(8)?;
                let capacity = self.word()?;
                self.array(capacity, 0)?;
                self.exact_reply(28 + 268 * capacity as u64)?;
            }
            OP_QUEUE_SUBMIT => {
                kind = A7CommandKind::Queue;
                self.skip(8)?;
                let submits = self.word()?;
                self.array(submits, 0)?;
                self.skip(8)?;
            }
            OP_ALLOCATE_MEMORY => {
                kind = A7CommandKind::Allocation;
                allocation = self.allocate()?;
            }
            OP_FREE_MEMORY | OP_DESTROY_BUFFER | OP_DESTROY_IMAGE | 53 | 58 | 71 => {
                if opcode == OP_FREE_MEMORY
                    || opcode == OP_DESTROY_BUFFER
                    || opcode == OP_DESTROY_IMAGE
                {
                    kind = A7CommandKind::Allocation;
                }
                identity = (self.long()?, self.long()?);
                self.skip(8)?;
            }
            OP_CREATE_BUFFER => identity = self.create_buffer()?,
            OP_CREATE_IMAGE => identity = self.create_image()?,
            57 => self.skip(8 + 8 + 4 + 8 + 4 + 8 + 4 + 4 + 16 + 20 + 8 + 8 + 8)?,
            79 => self.update_descriptor_sets()?,
            90 => {
                kind = A7CommandKind::CommandRecord;
                self.skip(8 + 8 + 4 + 8 + 4 + 8)?;
            }
            91 => {
                kind = A7CommandKind::CommandRecord;
                self.skip(8)?;
            }
            119 => {
                kind = A7CommandKind::CommandRecord;
                self.clear_color()?;
            }
            OP_GET_BUFFER_MEMORY_REQUIREMENTS2 | OP_GET_IMAGE_MEMORY_REQUIREMENTS2 => {
                identity = self.query()?;
            }
            147 => {
                self.skip(8 + 8 + 4)?;
                self.chain()?;
            }
            150 => self.skip(8 + 8 + 4 + 8 + 20 + 8 + 4 + 8)?,
            152 => {
                self.skip(8 + 8 + 4)?;
                let links = self.chain()?;
                self.skip(8 + 8)?;
                self.exact_reply(496 + 284 * links as u64)?;
            }
            _ => return Err(VenusReject::UnknownOpcode),
        }
        Ok(A7Parsed {
            kind,
            opcode,
            allocation_size: allocation.0,
            memory_type_index: allocation.1,
            identity,
            end: self.c.offset,
            operand_count: self.count,
        })
    }
}

/// What the schema finds from `at` on, up to the first command it refuses. Behind a
/// reply stream one operand is reported already.
fn walk(
    bytes: &[u8],
    at: usize,
    reply_size: u64,
) -> (Vec<Result<A7Parsed, VenusReject>>, [VenusOperand; 4]) {
    let mut c = Cursor::new(bytes);
    if c.skip(at).is_err() {
        return (Vec::new(), [VenusOperand::default(); 4]);
    }
    let mut schema = Schema {
        c,
        reply_size,
        operands: [VenusOperand::default(); 4],
        count: usize::from(at != 0),
    };
    let mut parses = Vec::new();
    while schema.c.offset < bytes.len() {
        let parsed = schema.command();
        let refused = parsed.is_err();
        parses.push(parsed);
        if refused {
            break;
        }
    }
    (parses, schema.operands)
}

fn outer(bytes: &[u8]) -> Result<VenusA7Admission, VenusReject> {
    validate_venus_a7_outer_stream(bytes, &walk(bytes, 0, 0).0)
}

fn control(
    bytes: &[u8],
    has_reply: bool,
    operand_storage: &mut [VenusOperand],
) -> Result<VenusControlAdmission, VenusReject> {
    let parses = if has_reply {
        let mut size = [0u8; 8];
        size.copy_from_slice(&bytes[28..36]);
        walk(bytes, 36, u64::from_le_bytes(size)).0
    } else {
        walk(bytes, 0, 0).0
    };
    validate_venus_control_stream(bytes, has_reply, operand_storage, &parses)
}

fn put32(out: &mut Vec<u8>, n: u32) {
    out.extend_from_slice(&n.to_le_bytes());
}
fn put64(out: &mut Vec<u8>, n: u64) {
    out.extend_from_slice(&n.to_le_bytes());
}

fn zeros(out: &mut Vec<u8>, n: usize) {
    out.resize(out.len() + n, 0);
}

fn queue_prefix(opcode: u32, count: u32) -> Vec<u8> {
    let mut b = Vec::new();
    put32(&mut b, opcode);
    put32(&mut b, 0);
    put64(&mut b, 0x101);
    put32(&mut b, count);
    put64(&mut b, count as u64);
    b
}

fn allocation_stream() -> Vec<u8> {
    let mut b = Vec::new();
    put32(&mut b, OP_SET_REPLY);
    put32(&mut b, 0);
    put64(&mut b, 1);
    put32(&mut b, 0);
    put64(&mut b, 0);
    put64(&mut b, 24);
    put32(&mut b, OP_ALLOCATE_MEMORY);
    put32(&mut b, COMMAND_GENERATE_REPLY);
    put64(&mut b, 7);
    put64(&mut b, 1);
    put32(&mut b, ST_MEMORY_ALLOCATE_INFO);
    put64(&mut b, 1);
    put32(&mut b, ST_IMPORT_MEMORY_RESOURCE_INFO_MESA);
    put64(&mut b, 0);
    put32(&mut b, 0);
    put64(&mut b, 4096);
    put32(&mut b, 0);
    put64(&mut b, 0);
    put64(&mut b, 1);
    put64(&mut b, 99);
    b
}

fn a7_allocate(out: &mut Vec<u8>) -> usize {
    put32(out, OP_ALLOCATE_MEMORY);
    put32(out, 0);
    put64(out, 7);
    put64(out, 1);
    put32(out, ST_MEMORY_ALLOCATE_INFO);
    put64(out, 1);
    put32(out, ST_IMPORT_MEMORY_RESOURCE_INFO_MESA);
    put64(out, 0);
    let resource_offset = out.len();
    put32(out, 0);
    put64(out, 4096);
    put32(out, 0);
    put64(out, 0);
    put64(out, 1);
    put64(out, 99);
    resource_offset
}

fn a7_empty_recording(out: &mut Vec<u8>) {
    put32(out, 90);
    put32(out, 0);
    put64(out, 0x301);
    put64(out, 1);
    put32(out, 42);
    put64(out, 0);
    put32(out, 0);
    put64(out, 0);

    put32(out, 91);
    put32(out, 0);
    put64(out, 0x301);
}

fn a7_clear_color_recording(out: &mut Vec<u8>) -> usize {
    put32(out, 90);
    put32(out, 0);
    put64(out, 0x301);
    put64(out, 1);
    put32(out, 42);
    put64(out, 0);
    put32(out, 0);
    put64(out, 0);

    put32(out, 119);
    put32(out, 0);
    put64(out, 0x301);
    put64(out, 0x501);
    put32(out, 1);
    put64(out, 1);
    put32(out, 2);
    let color_count_offset = out.len();
    put64(out, 4);
    put32(out, 0x1122_3344);
    put32(out, 0x5566_7788);
    put32(out, 0x99aa_bbcc);
    put32(out, 0xddee_ff00);
    put32(out, 1);
    put64(out, 1);
    put32(out, 1);
    put32(out, 0);
    put32(out, 1);
    put32(out, 0);
    put32(out, 1);

    put32(out, 91);
    put32(out, 0);
    put64(out, 0x301);
    color_count_offset
}

fn a7_empty_queue(out: &mut Vec<u8>) {
    put32(out, OP_QUEUE_SUBMIT);
    put32(out, 0);
    put64(out, 0x101);
    put32(out, 0);
    put64(out, 0);
    put64(out, 0);
}

fn a7_destroy_allocation_object(out: &mut Vec<u8>, opcode: u32) {
    assert!(matches!(opcode, OP_DESTROY_BUFFER | OP_DESTROY_IMAGE));
    put32(out, opcode);
    put32(out, 0);
    put64(out, 7);
    put64(out, 0x501);
    put64(out, 0);
}

fn a7_free(out: &mut Vec<u8>) {
    put32(out, OP_FREE_MEMORY);
    put32(out, 0);
    put64(out, 7);
    put64(out, 99);
    put64(out, 0);
}

fn unbound_buffer_query_stream() -> (Vec<u8>, [usize; 6]) {
    let mut b = Vec::new();
    put32(&mut b, OP_SET_REPLY);
    put32(&mut b, 0);
    put64(&mut b, 1);
    put32(&mut b, 0);
    put64(&mut b, 80);
    put64(&mut b, 44);

    put32(&mut b, OP_CREATE_BUFFER);
    put32(&mut b, 0);
    let create_device = b.len();
    put64(&mut b, 7);
    put64(&mut b, 1);
    put32(&mut b, 12);
    put64(&mut b, 0);
    put32(&mut b, 0);
    put64(&mut b, 65_536);
    put32(&mut b, 3);
    put32(&mut b, 0);
    put32(&mut b, 0);
    put64(&mut b, 0);
    put64(&mut b, 0);
    put64(&mut b, 1);
    let create_buffer = b.len();
    put64(&mut b, 0x501);

    put32(&mut b, OP_GET_BUFFER_MEMORY_REQUIREMENTS2);
    put32(&mut b, COMMAND_GENERATE_REPLY);
    let query_device = b.len();
    put64(&mut b, 7);
    put64(&mut b, 1);
    put32(&mut b, 1_000_146_000);
    put64(&mut b, 0);
    let query_buffer = b.len();
    put64(&mut b, 0x501);
    put64(&mut b, 1);
    put32(&mut b, 1_000_146_003);
    put64(&mut b, 0);

    put32(&mut b, OP_DESTROY_BUFFER);
    put32(&mut b, 0);
    let destroy_device = b.len();
    put64(&mut b, 7);
    let destroy_buffer = b.len();
    put64(&mut b, 0x501);
    put64(&mut b, 0);

    (
        b,
        [
            create_device,
            create_buffer,
            query_device,
            query_buffer,
            destroy_device,
            destroy_buffer,
        ],
    )
}

fn dxvk_unbound_buffer_query_stream() -> Vec<u8> {
    let mut b = Vec::new();
    put32(&mut b, OP_SET_REPLY);
    put32(&mut b, 0);
    put64(&mut b, 1);
    put32(&mut b, 0);
    put64(&mut b, 80);
    put64(&mut b, 64);

    put32(&mut b, OP_CREATE_BUFFER);
    put32(&mut b, 0);
    put64(&mut b, 7);
    put64(&mut b, 1);
    put32(&mut b, 12);
    put64(&mut b, 1);
    put32(&mut b, 1_000_072_000);
    put64(&mut b, 0);
    put32(&mut b, 0x200);
    put32(&mut b, 0);
    put64(&mut b, 65_536);
    put32(&mut b, 7);
    put32(&mut b, 1);
    put32(&mut b, 2);
    put64(&mut b, 2);
    put32(&mut b, 0);
    put32(&mut b, 1);
    put64(&mut b, 0);
    put64(&mut b, 1);
    put64(&mut b, 0x501);

    put32(&mut b, OP_GET_BUFFER_MEMORY_REQUIREMENTS2);
    put32(&mut b, COMMAND_GENERATE_REPLY);
    put64(&mut b, 7);
    put64(&mut b, 1);
    put32(&mut b, 1_000_146_000);
    put64(&mut b, 0);
    put64(&mut b, 0x501);
    put64(&mut b, 1);
    put32(&mut b, 1_000_146_003);
    put64(&mut b, 1);
    put32(&mut b, 1_000_127_000);
    put64(&mut b, 0);

    put32(&mut b, OP_DESTROY_BUFFER);
    put32(&mut b, 0);
    put64(&mut b, 7);
    put64(&mut b, 0x501);
    put64(&mut b, 0);
    b
}

fn dxvk_image_create_query_stream() -> (Vec<u8>, [usize; 4]) {
    let mut b = Vec::new();
    put32(&mut b, OP_SET_REPLY);
    put32(&mut b, 0);
    put64(&mut b, 1);
    put32(&mut b, 0);
    put64(&mut b, 80);
    put64(&mut b, 64);

    put32(&mut b, OP_CREATE_IMAGE);
    put32(&mut b, 0);
    let create_device = b.len();
    put64(&mut b, 7);
    put64(&mut b, 1);
    put32(&mut b, 14);
    put64(&mut b, 1);
    put32(&mut b, 1_000_147_000);
    put64(&mut b, 0);
    put32(&mut b, 2);
    put64(&mut b, 2);
    put32(&mut b, 44);
    put32(&mut b, 50);
    put32(&mut b, 8);
    put32(&mut b, 1);
    put32(&mut b, 44);
    put32(&mut b, 1920);
    put32(&mut b, 1080);
    put32(&mut b, 1);
    put32(&mut b, 1);
    put32(&mut b, 1);
    put32(&mut b, 1);
    put32(&mut b, 0);
    put32(&mut b, 0x14);
    put32(&mut b, 0);
    put32(&mut b, 0);
    put64(&mut b, 0);
    put32(&mut b, 0);
    put64(&mut b, 0);
    put64(&mut b, 1);
    let create_image = b.len();
    put64(&mut b, 0x601);

    put32(&mut b, OP_GET_IMAGE_MEMORY_REQUIREMENTS2);
    put32(&mut b, COMMAND_GENERATE_REPLY);
    let query_device = b.len();
    put64(&mut b, 7);
    put64(&mut b, 1);
    put32(&mut b, 1_000_146_001);
    put64(&mut b, 0);
    let query_image = b.len();
    put64(&mut b, 0x601);
    put64(&mut b, 1);
    put32(&mut b, 1_000_146_003);
    put64(&mut b, 1);
    put32(&mut b, 1_000_127_000);
    put64(&mut b, 0);

    (b, [create_device, create_image, query_device, query_image])
}

#[test]
fn control_admits_only_exact_self_contained_unbound_buffer_query() {
    let (stream, offsets) = unbound_buffer_query_stream();
    let admitted = control(&stream, true, &mut [VenusOperand::default(); 1])
    .expect("same-device same-buffer create/query/destroy transaction");
    assert_eq!(admitted.command_count, 3);
    assert_eq!(admitted.opcode, OP_GET_BUFFER_MEMORY_REQUIREMENTS2);
    assert_eq!(admitted.operand_count, 1);

    for offset in offsets {
        let mut mismatched = stream.clone();
        mismatched[offset..offset + 8].copy_from_slice(&0x777u64.to_le_bytes());
        assert_eq!(
            control(&mismatched, true, &mut [VenusOperand::default(); 1]),
            Err(VenusReject::InvalidSequence)
        );
    }

    let mut missing_destroy = stream;
    missing_destroy.truncate(offsets[4] - 8);
    assert!(control(&missing_destroy, true, &mut [VenusOperand::default(); 1])
    .is_err());
}

#[test]
fn control_admits_dxvk_concurrent_external_buffer_query_shape() {
    let stream = dxvk_unbound_buffer_query_stream();
    let admitted = control(&stream, true, &mut [VenusOperand::default(); 1])
    .expect("DXVK concurrent external buffer query transaction");
    assert_eq!(admitted.command_count, 3);
    assert_eq!(admitted.opcode, OP_GET_BUFFER_MEMORY_REQUIREMENTS2);
    assert_eq!(admitted.operand_count, 1);
    assert_eq!(admitted.reply_size, 64);
}

#[test]
fn control_admits_only_same_image_create_query_pair() {
    let (stream, offsets) = dxvk_image_create_query_stream();
    let admitted = control(&stream, true, &mut [VenusOperand::default(); 1])
    .expect("same-device same-image create/query transaction");
    assert_eq!(admitted.command_count, 2);
    assert_eq!(admitted.opcode, OP_GET_IMAGE_MEMORY_REQUIREMENTS2);
    assert_eq!(admitted.operand_count, 1);
    assert_eq!(admitted.reply_size, 64);

    for offset in offsets {
        let mut mismatched = stream.clone();
        mismatched[offset..offset + 8].copy_from_slice(&0x777u64.to_le_bytes());
        assert_eq!(
            control(&mismatched, true, &mut [VenusOperand::default(); 1]),
            Err(VenusReject::InvalidSequence)
        );
    }

    let mut standalone_teardown = Vec::new();
    a7_destroy_allocation_object(&mut standalone_teardown, OP_DESTROY_IMAGE);
    let teardown =
        control(&standalone_teardown, false, &mut [])
            .expect("standalone unbound teardown");
    assert_eq!(teardown.command_count, 1);
}

fn a7_create_image_view(out: &mut Vec<u8>) {
    put32(out, 57);
    put32(out, 0);
    put64(out, 0x101);
    put64(out, 1);
    put32(out, 15);
    put64(out, 0);
    put32(out, 0);
    put64(out, 0x501);
    put32(out, 1);
    put32(out, 37);
    for _ in 0..4 {
        put32(out, 0);
    }
    put32(out, 1);
    put32(out, 0);
    put32(out, 1);
    put32(out, 0);
    put32(out, 1);
    put64(out, 0);
    put64(out, 1);
    put64(out, 0x601);
}

fn a7_destroy_image_view(out: &mut Vec<u8>) {
    put32(out, 58);
    put32(out, 0);
    put64(out, 0x101);
    put64(out, 0x601);
    put64(out, 0);
}

fn a7_update_descriptor_sets_empty(out: &mut Vec<u8>) {
    put32(out, 79);
    put32(out, 0);
    put64(out, 0x101);
    put32(out, 0);
    put64(out, 0);
    put32(out, 0);
    put64(out, 0);
}

#[test]
fn a7_admits_object_materialization_between_records_and_recordings() {
    let mut b = Vec::new();
    let resource_offset = a7_allocate(&mut b);
    a7_create_image_view(&mut b);
    a7_update_descriptor_sets_empty(&mut b);
    a7_destroy_image_view(&mut b);
    a7_empty_recording(&mut b);
    a7_empty_queue(&mut b);

    let admitted = outer(&b).unwrap();
    let operands = walk(&b, 0, 0).1;
    assert_eq!(admitted.command_count, 7);
    assert_eq!(admitted.allocation_command_count, 1);
    assert_eq!(admitted.object_command_count, 3);
    assert_eq!(admitted.command_buffer_count, 1);
    assert_eq!(admitted.queue_command_count, 1);
    assert_eq!(admitted.operand_count, 1);
    assert_eq!(operands[0].payload_offset, resource_offset as u32);

    let mut plain = Vec::new();
    a7_create_image_view(&mut plain);
    a7_empty_recording(&mut plain);
    a7_empty_queue(&mut plain);
    let admitted = outer(&plain).unwrap();
    assert_eq!(admitted.object_command_count, 1);
    assert_eq!(admitted.queue_command_count, 1);
}

#[test]
fn a7_refuses_misplaced_or_foreign_object_materialization() {
    let mut alloc_after = Vec::new();
    a7_create_image_view(&mut alloc_after);
    a7_allocate(&mut alloc_after);
    assert_eq!(
        outer(&alloc_after),
        Err(VenusReject::InvalidSequence)
    );

    let mut after_recording = Vec::new();
    a7_empty_recording(&mut after_recording);
    a7_create_image_view(&mut after_recording);
    assert_eq!(
        outer(&after_recording),
        Err(VenusReject::InvalidSequence)
    );

    let mut in_teardown = Vec::new();
    a7_destroy_allocation_object(&mut in_teardown, OP_DESTROY_IMAGE);
    a7_create_image_view(&mut in_teardown);
    a7_free(&mut in_teardown);
    assert_eq!(
        outer(&in_teardown),
        Err(VenusReject::InvalidSequence)
    );

    let mut foreign = Vec::new();
    put32(&mut foreign, 71);
    put32(&mut foreign, 0);
    put64(&mut foreign, 0x101);
    put64(&mut foreign, 0x601);
    put64(&mut foreign, 0);
    a7_empty_recording(&mut foreign);
    a7_empty_queue(&mut foreign);
    assert_eq!(
        outer(&foreign),
        Err(VenusReject::InvalidSequence)
    );
}

#[test]
fn a7_admits_deferred_allocate_record_and_exact_final_queue() {
    let mut b = Vec::new();
    let resource_offset = a7_allocate(&mut b);
    a7_empty_recording(&mut b);
    a7_empty_queue(&mut b);

    let admitted = outer(&b).unwrap();
    let operands = walk(&b, 0, 0).1;
    assert_eq!(admitted.command_count, 4);
    assert_eq!(admitted.allocation_command_count, 1);
    assert_eq!(admitted.command_buffer_count, 1);
    assert_eq!(admitted.queue_command_count, 1);
    assert_eq!(admitted.operand_count, 1);
    assert_eq!(operands[0].payload_offset, resource_offset as u32);
    assert_eq!(
        operands[0].operand_kind,
        OPERAND_KIND_HOST_RESOURCE_ID32
    );
}

#[test]
fn a7_consumes_clear_color_union_array_exactly() {
    let mut b = Vec::new();
    let color_count_offset = a7_clear_color_recording(&mut b);
    a7_empty_queue(&mut b);

    let admitted = outer(&b).unwrap();
    assert_eq!(admitted.command_count, 4);
    assert_eq!(admitted.command_buffer_count, 1);
    assert_eq!(admitted.queue_command_count, 1);

    b[color_count_offset..color_count_offset + 8].copy_from_slice(&3u64.to_le_bytes());
    assert_eq!(
        outer(&b),
        Err(VenusReject::BadArrayCount)
    );
}

#[test]
fn a7_admits_exact_joined_allocation_teardown_without_synthetic_queue() {
    for opcode in [OP_DESTROY_BUFFER, OP_DESTROY_IMAGE] {
        let mut b = Vec::new();
        a7_destroy_allocation_object(&mut b, opcode);
        a7_free(&mut b);

        let admitted = outer(&b).unwrap();
        assert_eq!(admitted.command_count, 2);
        assert_eq!(admitted.allocation_command_count, 2);
        assert_eq!(admitted.command_buffer_count, 0);
        assert_eq!(admitted.queue_command_count, 0);
        assert_eq!(admitted.operand_count, 0);
        assert!(admitted.terminal_teardown);
    }

    let mut free_only = Vec::new();
    a7_free(&mut free_only);
    let admitted = outer(&free_only).unwrap();
    assert_eq!(admitted.command_count, 1);
    assert!(admitted.terminal_teardown);
}

#[test]
fn a7_refuses_incomplete_reordered_or_mixed_allocation_teardown() {
    let mut destroy_only = Vec::new();
    a7_destroy_allocation_object(&mut destroy_only, OP_DESTROY_IMAGE);
    assert_eq!(
        outer(&destroy_only),
        Err(VenusReject::InvalidSequence)
    );

    let mut after_free = Vec::new();
    a7_free(&mut after_free);
    a7_destroy_allocation_object(&mut after_free, OP_DESTROY_IMAGE);
    assert_eq!(
        outer(&after_free),
        Err(VenusReject::InvalidSequence)
    );

    let mut synthetic_queue = Vec::new();
    a7_destroy_allocation_object(&mut synthetic_queue, OP_DESTROY_IMAGE);
    a7_free(&mut synthetic_queue);
    a7_empty_queue(&mut synthetic_queue);
    assert_eq!(
        outer(&synthetic_queue),
        Err(VenusReject::InvalidSequence)
    );

    let mut allocate_then_free = Vec::new();
    a7_allocate(&mut allocate_then_free);
    a7_free(&mut allocate_then_free);
    assert_eq!(
        outer(&allocate_then_free),
        Err(VenusReject::InvalidSequence)
    );
}

#[test]
fn a7_refuses_nonzero_resource_and_incomplete_or_reordered_scope() {
    let mut nonzero = Vec::new();
    let resource_offset = a7_allocate(&mut nonzero);
    nonzero[resource_offset] = 1;
    a7_empty_queue(&mut nonzero);
    assert_eq!(
        outer(&nonzero),
        Err(VenusReject::NonZeroResourceOperand)
    );

    let mut unterminated = Vec::new();
    put32(&mut unterminated, 90);
    put32(&mut unterminated, 0);
    put64(&mut unterminated, 0x301);
    put64(&mut unterminated, 1);
    put32(&mut unterminated, 42);
    put64(&mut unterminated, 0);
    put32(&mut unterminated, 0);
    put64(&mut unterminated, 0);
    a7_empty_queue(&mut unterminated);
    assert_eq!(
        outer(&unterminated),
        Err(VenusReject::InvalidSequence)
    );

    let mut allocation_after_record = Vec::new();
    a7_empty_recording(&mut allocation_after_record);
    a7_allocate(&mut allocation_after_record);
    a7_empty_queue(&mut allocation_after_record);
    assert_eq!(
        outer(&allocation_after_record),
        Err(VenusReject::InvalidSequence)
    );
}

#[test]
fn admits_exact_allocate_and_reports_both_zero_operands() {
    let b = allocation_stream();
    let mut out = [VenusOperand::default(); 2];
    let admitted = validate_venus_stream(&b, &mut out).unwrap();
    assert_eq!(admitted.class, VenusCommandClass::AllocateMemory);
    assert_eq!(admitted.operand_count, 2);
    assert_eq!(out[0].payload_offset, 16);
    assert_eq!(out[1].payload_offset, 84);
    assert_eq!(
        out[0].operand_kind,
        OPERAND_KIND_HOST_RESOURCE_ID32
    );
}

#[test]
fn refuses_nonzero_resource_operand_and_trailing_command() {
    let mut b = allocation_stream();
    b[16] = 1;
    assert_eq!(
        validate_venus_stream(&b, &mut [VenusOperand::default(); 2]),
        Err(VenusReject::NonZeroResourceOperand)
    );
    let mut b = allocation_stream();
    put32(&mut b, OP_FREE_MEMORY);
    assert_eq!(
        validate_venus_stream(&b, &mut [VenusOperand::default(); 2]),
        Err(VenusReject::TrailingBytes)
    );
}

#[test]
fn admits_empty_queue_commands_and_free() {
    for opcode in [OP_QUEUE_SUBMIT, OP_QUEUE_SUBMIT2, OP_QUEUE_BIND_SPARSE] {
        let mut b = Vec::new();
        put32(&mut b, opcode);
        put32(&mut b, 0);
        put64(&mut b, 1);
        put32(&mut b, 0);
        put64(&mut b, 0);
        put64(&mut b, 0);
        let admitted = validate_venus_stream(&b, &mut []).unwrap();
        assert_eq!(admitted.operand_count, 0);
    }

    let mut b = Vec::new();
    put32(&mut b, OP_FREE_MEMORY);
    put32(&mut b, 0);
    put64(&mut b, 1);
    put64(&mut b, 2);
    put64(&mut b, 0);
    assert_eq!(
        validate_venus_stream(&b, &mut []).unwrap().class,
        VenusCommandClass::FreeMemory
    );
}

#[test]
fn admits_generated_submit_with_the_complete_supported_chain() {
    let mut b = queue_prefix(OP_QUEUE_SUBMIT, 1);
    put32(&mut b, ST_SUBMIT_INFO);
    put64(&mut b, 1);
    put32(&mut b, ST_DEVICE_GROUP_SUBMIT_INFO);
    put64(&mut b, 1);
    put32(&mut b, ST_PROTECTED_SUBMIT_INFO);
    put64(&mut b, 1);
    put32(&mut b, ST_TIMELINE_SEMAPHORE_SUBMIT_INFO);
    put64(&mut b, 0);
    put32(&mut b, 1);
    put64(&mut b, 1);
    put64(&mut b, 9);
    put32(&mut b, 1);
    put64(&mut b, 1);
    put64(&mut b, 10);
    put32(&mut b, 1);
    for count in [1u32, 1, 1] {
        put32(&mut b, count);
        put64(&mut b, count as u64);
        put32(&mut b, 0);
    }
    put32(&mut b, 1);
    put64(&mut b, 1);
    put64(&mut b, 0x201);
    put64(&mut b, 1);
    put32(&mut b, 0x10);
    put32(&mut b, 1);
    put64(&mut b, 1);
    put64(&mut b, 0x301);
    put32(&mut b, 1);
    put64(&mut b, 1);
    put64(&mut b, 0x401);
    put64(&mut b, 0x501);

    assert_eq!(
        validate_venus_stream(&b, &mut []).unwrap().class,
        VenusCommandClass::QueueSubmit
    );
}

fn semaphore_submit(out: &mut Vec<u8>, semaphore: u64) {
    put32(out, ST_SEMAPHORE_SUBMIT_INFO);
    put64(out, 0);
    put64(out, semaphore);
    put64(out, 7);
    put64(out, 0x100);
    put32(out, 0);
}

#[test]
fn admits_generated_submit2_with_wait_command_and_signal_records() {
    let mut b = queue_prefix(OP_QUEUE_SUBMIT2, 1);
    put32(&mut b, ST_SUBMIT_INFO2);
    put64(&mut b, 0);
    put32(&mut b, 0);
    put32(&mut b, 1);
    put64(&mut b, 1);
    semaphore_submit(&mut b, 0x601);
    put32(&mut b, 1);
    put64(&mut b, 1);
    put32(&mut b, ST_COMMAND_BUFFER_SUBMIT_INFO);
    put64(&mut b, 0);
    put64(&mut b, 0x701);
    put32(&mut b, 1);
    put32(&mut b, 1);
    put64(&mut b, 1);
    semaphore_submit(&mut b, 0x801);
    put64(&mut b, 0x901);

    assert_eq!(
        validate_venus_stream(&b, &mut []).unwrap().class,
        VenusCommandClass::QueueSubmit2
    );
}

fn sparse_object(out: &mut Vec<u8>, stride: usize) {
    put64(out, 0xA01);
    put32(out, 1);
    put64(out, 1);
    zeros(out, stride);
}

#[test]
fn admits_generated_bind_sparse_with_all_three_binding_classes() {
    let mut b = queue_prefix(OP_QUEUE_BIND_SPARSE, 1);
    put32(&mut b, ST_BIND_SPARSE_INFO);
    put64(&mut b, 1);
    put32(&mut b, ST_DEVICE_GROUP_BIND_SPARSE_INFO);
    put64(&mut b, 1);
    put32(&mut b, ST_TIMELINE_SEMAPHORE_SUBMIT_INFO);
    put64(&mut b, 0);
    put32(&mut b, 1);
    put64(&mut b, 1);
    put64(&mut b, 11);
    put32(&mut b, 1);
    put64(&mut b, 1);
    put64(&mut b, 12);
    put32(&mut b, 0);
    put32(&mut b, 0);
    put32(&mut b, 1);
    put64(&mut b, 1);
    put64(&mut b, 0xB01);
    for stride in [36usize, 36, 56] {
        put32(&mut b, 1);
        put64(&mut b, 1);
        sparse_object(&mut b, stride);
    }
    put32(&mut b, 1);
    put64(&mut b, 1);
    put64(&mut b, 0xC01);
    put64(&mut b, 0xD01);

    assert_eq!(
        validate_venus_stream(&b, &mut []).unwrap().class,
        VenusCommandClass::QueueBindSparse
    );
}

#[test]
fn allocation_chain_is_recursive_and_requires_one_zero_import() {
    let mut b = allocation_stream();
    b[76..84].copy_from_slice(&1u64.to_le_bytes());
    b.splice(84..84, {
        let mut nested = Vec::new();
        put32(&mut nested, ST_IMPORT_MEMORY_RESOURCE_INFO_MESA);
        put64(&mut nested, 0);
        put32(&mut nested, 0);
        nested
    });
    assert_eq!(
        validate_venus_stream(&b, &mut [VenusOperand::default(); 3]),
        Err(VenusReject::DuplicateImport)
    );

    let mut missing = allocation_stream();
    missing[64..72].copy_from_slice(&0u64.to_le_bytes());
    missing.drain(72..88);
    assert_eq!(
        validate_venus_stream(&missing, &mut [VenusOperand::default(); 2]),
        Err(VenusReject::MissingImport)
    );
}

#[test]
fn admits_device_extension_count_and_fill_with_null_layer() {
    let mut b = Vec::new();
    put32(&mut b, OP_SET_REPLY);
    put32(&mut b, 0);
    put64(&mut b, 1);
    put32(&mut b, 0);
    put64(&mut b, 80);
    put64(&mut b, 28);

    put32(&mut b, 14);
    put32(&mut b, COMMAND_GENERATE_REPLY);
    put64(&mut b, 2);
    put64(&mut b, 0);
    put64(&mut b, 1);
    put32(&mut b, 0);
    put64(&mut b, 0);

    let mut operands = [VenusOperand::default(); 1];
    let admitted = control(&b, true, &mut operands)
        .expect("vkEnumerateDeviceExtensionProperties NULL-layer count query");
    assert_eq!(admitted.opcode, 14);
    assert_eq!(admitted.operand_count, 1);
    assert_eq!(admitted.reply_offset, 80);
    assert_eq!(admitted.reply_size, 28);
    assert_eq!(operands[0].payload_offset, 16);

    let mut fill = b.clone();
    fill[28..36].copy_from_slice(&43_444u64.to_le_bytes());
    fill[68..72].copy_from_slice(&162u32.to_le_bytes());
    fill[72..80].copy_from_slice(&162u64.to_le_bytes());
    let admitted = control(&fill, true, &mut [VenusOperand::default(); 1])
    .expect("vkEnumerateDeviceExtensionProperties output-array fill");
    assert_eq!(admitted.opcode, 14);
    assert_eq!(admitted.reply_size, 43_444);

    fill[28..36].copy_from_slice(&43_443u64.to_le_bytes());
    assert_eq!(
        control(&fill, true, &mut [VenusOperand::default(); 1]),
        Err(VenusReject::BadArrayCount)
    );

    let mut unterminated = b;
    unterminated[52..60].copy_from_slice(&1u64.to_le_bytes());
    unterminated.splice(60..60, [b'x', 0, 0, 0]);
    assert_eq!(
        control(&unterminated, true, &mut [VenusOperand::default(); 1]),
        Err(VenusReject::BadArrayCount)
    );
}

fn physical_device_features2_stream(chain: &[u32]) -> Vec<u8> {
    let mut b = Vec::new();
    put32(&mut b, OP_SET_REPLY);
    put32(&mut b, 0);
    put64(&mut b, 1);
    put32(&mut b, 0);
    put64(&mut b, 80);
    put64(&mut b, 2_036);

    put32(&mut b, 147);
    put32(&mut b, COMMAND_GENERATE_REPLY);
    put64(&mut b, 2);
    put64(&mut b, 1);
    put32(&mut b, 1_000_059_000);
    for &structure_type in chain {
        put64(&mut b, 1);
        put32(&mut b, structure_type);
    }
    put64(&mut b, 0);
    b
}

fn physical_device_memory_properties2_stream(reply_size: u64, memory_budget: bool) -> Vec<u8> {
    let mut b = Vec::new();
    put32(&mut b, OP_SET_REPLY);
    put32(&mut b, 0);
    put64(&mut b, 1);
    put32(&mut b, 0);
    put64(&mut b, 80);
    put64(&mut b, reply_size);

    put32(&mut b, 152);
    put32(&mut b, COMMAND_GENERATE_REPLY);
    put64(&mut b, 2);
    put64(&mut b, 1);
    put32(&mut b, 1_000_059_006);
    if memory_budget {
        put64(&mut b, 1);
        put32(&mut b, 1_000_237_000);
        put64(&mut b, 0);
    } else {
        put64(&mut b, 0);
    }
    put64(&mut b, 32);
    put64(&mut b, 16);
    b
}

#[test]
fn admits_captured_dxvk_feature_chain_but_keeps_a_finite_depth_bound() {
    let chain = [
        1_000_252_000,
        1_000_352_000,
        1_000_028_000,
        1_000_642_000,
        1_000_564_000,
        1_000_234_000,
        1_000_567_000,
        1_000_260_000,
        1_000_254_000,
        1_000_382_000,
        1_000_356_000,
        1_000_498_000,
        1_000_422_000,
        1_000_451_000,
        1_000_351_000,
        1_000_392_000,
        1_000_328_000,
        1_000_495_000,
        1_000_391_000,
        1_000_418_000,
        1_000_393_000,
        1_000_320_000,
        1_000_251_000,
        1_000_455_000,
        1_000_499_000,
        1_000_102_000,
        1_000_355_000,
        1_000_582_000,
        1_000_283_000,
        1_000_287_002,
        1_000_081_001,
        1_000_381_000,
        1_000_244_000,
        1_000_411_000,
        1_000_148_000,
        1_000_339_000,
        1_000_524_000,
        1_000_336_000,
        1_000_387_000,
        1_000_235_000,
        1_000_323_000,
        1_000_558_000,
        1_000_434_000,
        1_000_181_000,
        1_000_141_000,
        1_000_286_000,
        1_000_481_000,
        1_000_347_000,
        1_000_386_000,
        1_000_348_013,
        1_000_562_000,
        1_000_226_003,
        1_000_203_000,
        1_000_421_000,
        1_000_506_000,
        1_000_201_000,
        1_000_150_013,
        1_000_232_000,
        55,
        1_000_330_000,
        1_000_281_000,
        1_000_267_000,
        1_000_377_000,
        1_000_340_000,
        53,
        51,
        49,
    ];
    let stream = physical_device_features2_stream(&chain);
    assert_eq!(stream.len(), 876);
    let admitted = control(&stream, true, &mut [VenusOperand::default(); 1])
    .expect("captured DXVK vkGetPhysicalDeviceFeatures2 chain");
    assert_eq!(admitted.opcode, 147);
    assert_eq!(admitted.reply_size, 2_036);

    let too_deep = physical_device_features2_stream(&vec![1_000_252_000; 129]);
    assert_eq!(
        control(&too_deep, true, &mut [VenusOperand::default(); 1]),
        Err(VenusReject::UnsupportedChain)
    );
}

#[test]
fn admits_captured_memory_properties2_output_shape_and_exact_reply_sizes() {
    let captured = physical_device_memory_properties2_stream(496, false);
    assert_eq!(captured.len(), 88);
    let admitted = control(&captured, true, &mut [VenusOperand::default(); 1])
    .expect("captured vkGetPhysicalDeviceMemoryProperties2 request");
    assert_eq!(admitted.opcode, 152);
    assert_eq!(admitted.reply_size, 496);

    let wrong_null_reply = physical_device_memory_properties2_stream(495, false);
    assert_eq!(
        control(&wrong_null_reply, true, &mut [VenusOperand::default(); 1]),
        Err(VenusReject::BadArrayCount)
    );

    let with_budget = physical_device_memory_properties2_stream(780, true);
    assert_eq!(with_budget.len(), 100);
    let admitted = control(&with_budget, true, &mut [VenusOperand::default(); 1])
    .expect("memory-budget pNext reply shape");
    assert_eq!(admitted.opcode, 152);
    assert_eq!(admitted.reply_size, 780);

    let wrong_budget_reply = physical_device_memory_properties2_stream(496, true);
    assert_eq!(
        control(&wrong_budget_reply, true, &mut [VenusOperand::default(); 1]),
        Err(VenusReject::BadArrayCount)
    );
}

#[test]
fn admits_captured_unbound_destroy_buffer_control_batch() {
    let mut captured = Vec::new();
    put32(&mut captured, OP_DESTROY_BUFFER);
    put32(&mut captured, 0);
    put64(&mut captured, 3);
    put64(&mut captured, 0x3a);
    put64(&mut captured, 0);
    assert_eq!(captured.len(), 32);
    let admitted = control(&captured, false, &mut [])
        .expect("captured unbound vkDestroyBuffer");
    assert_eq!(admitted.opcode, OP_DESTROY_BUFFER);
    assert_eq!(admitted.command_count, 1);
    assert_eq!(admitted.operand_count, 0);
}

#[test]
fn admits_unbound_destroy_image_after_pure_control() {
    let mut b = Vec::new();
    put32(&mut b, 53);
    put32(&mut b, 0);
    put64(&mut b, 7);
    put64(&mut b, 0x77);
    put64(&mut b, 0);
    a7_destroy_allocation_object(&mut b, OP_DESTROY_IMAGE);
    let admitted = control(&b, false, &mut [])
        .expect("pure control followed by unbound vkDestroyImage");
    assert_eq!(admitted.command_count, 2);
    assert_eq!(admitted.operand_count, 0);
}

#[test]
fn control_no_reply_still_refuses_free_memory() {
    let mut b = Vec::new();
    a7_free(&mut b);
    assert_eq!(
        control(&b, false, &mut []),
        Err(VenusReject::InvalidSequence)
    );
}

#[test]
fn admits_captured_dxvk_update_descriptor_sets_control_batch() {
    let words = [
        0x4f, 0, 3, 0, 1, 1, 0, 0x23, 0, 0, 0x7c, 0, 0, 0, 1, 0, 1, 0, 0x13, 0, 0, 0, 0, 0, 0,
        0, 0, 0, 0, 0,
    ];
    let mut captured = Vec::new();
    for word in words {
        put32(&mut captured, word);
    }
    assert_eq!(captured.len(), 120);

    let admitted = control(&captured, false, &mut [])
        .expect("captured DXVK vkUpdateDescriptorSets batch");
    assert_eq!(admitted.opcode, 79);
    assert_eq!(admitted.command_count, 1);
    assert_eq!(admitted.operand_count, 0);

    captured[64..72].copy_from_slice(&2u64.to_le_bytes());
    assert_eq!(
        control(&captured, false, &mut []),
        Err(VenusReject::BadArrayCount)
    );
}

#[test]
fn admits_captured_dxvk_image_format_query_control_batch() {
    let words = [
        0xb2,
        0,
        1,
        0,
        0,
        0x50,
        0,
        0x3c,
        0,
        0x96,
        1,
        2,
        0,
        1,
        0,
        0x3b9b_b07c,
        0,
        0,
        0x2c,
        1,
        0,
        3,
        8,
        1,
        0,
        0x3b9b_b07b,
        0,
        0,
    ];
    let mut captured = Vec::new();
    for word in words {
        put32(&mut captured, word);
    }
    assert_eq!(captured.len(), 112);

    let admitted = control(&captured, true, &mut [VenusOperand::default(); 1])
    .expect("captured DXVK image-format query");
    assert_eq!(admitted.opcode, 150);
    assert_eq!(admitted.command_count, 1);
    assert_eq!(admitted.operand_count, 1);
    assert_eq!(admitted.reply_offset, 80);
    assert_eq!(admitted.reply_size, 60);
}

#[test]
fn every_nested_shape_refuses_a_truncated_tail() {
    let mut streams = Vec::new();

    let mut submit2 = queue_prefix(OP_QUEUE_SUBMIT2, 1);
    put32(&mut submit2, ST_SUBMIT_INFO2);
    put64(&mut submit2, 0);
    put32(&mut submit2, 0);
    put32(&mut submit2, 1);
    put64(&mut submit2, 1);
    semaphore_submit(&mut submit2, 1);
    streams.push(submit2);

    let mut sparse = queue_prefix(OP_QUEUE_BIND_SPARSE, 1);
    put32(&mut sparse, ST_BIND_SPARSE_INFO);
    put64(&mut sparse, 0);
    put32(&mut sparse, 0);
    put64(&mut sparse, 0);
    put32(&mut sparse, 1);
    put64(&mut sparse, 1);
    sparse_object(&mut sparse, 36);
    streams.push(sparse);

    for mut stream in streams {
        stream.pop();
        assert_eq!(
            validate_venus_stream(&stream, &mut []),
            Err(VenusReject::Truncated)
        );
    }
}

#[test]
fn rejects_count_driven_truncation_without_long_loop() {
    let mut b = Vec::new();
    put32(&mut b, OP_QUEUE_SUBMIT);
    put32(&mut b, 0);
    put64(&mut b, 1);
    put32(&mut b, u32::MAX);
    put64(&mut b, u32::MAX as u64);
    assert_eq!(
        validate_venus_stream(&b, &mut []),
        Err(VenusReject::BadArrayCount)
    );
}

#[test]
fn reported_operands_are_zero_words_in_payload_order() {
    let mut b = allocation_stream();
    let mut out = [VenusOperand::default(); 2];
    assert!(validate_venus_stream(&b, &mut out).is_ok());
    assert!(out[0].payload_offset + 4 <= out[1].payload_offset);
    for operand in out {
        let at = operand.payload_offset as usize;
        assert_eq!(b[at..at + 4], [0, 0, 0, 0]);
        assert_eq!(operand.operand_kind, OPERAND_KIND_HOST_RESOURCE_ID32);
    }
    assert_eq!(
        validate_venus_stream(&b, &mut [VenusOperand::default(); 1]),
        Err(VenusReject::OperandCapacity)
    );
    b[4] = 1;
    assert_eq!(
        validate_venus_stream(&b, &mut [VenusOperand::default(); 2]),
        Err(VenusReject::BadFlags)
    );
}

#[test]
fn admission_reports_what_an_allocation_asks_for() {
    let b = allocation_stream();
    let admitted = validate_venus_stream(&b, &mut [VenusOperand::default(); 2]).unwrap();
    assert_eq!(admitted.reply_offset, 0);
    assert_eq!(admitted.reply_size, 24);
    assert_eq!(admitted.allocation_size, 4096);
    assert_eq!(admitted.memory_type_index, 0);
}

#[test]
fn malformed_streams_are_refused_by_name() {
    assert_eq!(validate_venus_stream(&[], &mut []), Err(VenusReject::Truncated));
    let mut b = Vec::new();
    put32(&mut b, 7);
    put32(&mut b, 0);
    assert_eq!(validate_venus_stream(&b, &mut []), Err(VenusReject::UnknownOpcode));

    let mut b = Vec::new();
    put32(&mut b, OP_FREE_MEMORY);
    put32(&mut b, 0);
    put64(&mut b, 1);
    put64(&mut b, 2);
    put64(&mut b, 2);
    assert_eq!(validate_venus_stream(&b, &mut []), Err(VenusReject::BadPointer));

    let mut b = queue_prefix(OP_QUEUE_SUBMIT, 1);
    put32(&mut b, ST_SUBMIT_INFO2);
    assert_eq!(validate_venus_stream(&b, &mut []), Err(VenusReject::BadStructureType));

    let mut b = queue_prefix(OP_QUEUE_SUBMIT, 1);
    put32(&mut b, ST_SUBMIT_INFO);
    put64(&mut b, 1);
    put32(&mut b, ST_SUBMIT_INFO);
    assert_eq!(validate_venus_stream(&b, &mut []), Err(VenusReject::UnsupportedChain));
}

#[test]
fn an_outer_stream_without_a_parse_for_a_command_is_refused() {
    let mut b = Vec::new();
    a7_empty_queue(&mut b);
    assert_eq!(validate_venus_a7_outer_stream(&b, &[]), Err(VenusReject::UnknownOpcode));
    let mut parses = walk(&b, 0, 0).0;
    assert!(validate_venus_a7_outer_stream(&b, &parses).is_ok());
    if let Ok(parsed) = &mut parses[0] {
        parsed.end += 1;
    }
    assert_eq!(validate_venus_a7_outer_stream(&b, &parses), Err(VenusReject::Truncated));
    let mut behind = b.clone();
    a7_empty_queue(&mut behind);
    assert_eq!(outer(&behind), Err(VenusReject::TrailingBytes));
}

#[test]
fn the_cursor_pads_narrow_arrays_and_bounds_counts() {
    let b = [1u8, 2, 3, 4, 5, 6, 7, 8, 9, 10, 11, 12];
    let mut c = Cursor::new(&b);
    assert_eq!(c.take_padded(3), Ok(&b[0..3]));
    assert_eq!(c.offset, 4);
    assert_eq!(c.skip_array(5, 1), Ok(()));
    assert_eq!(c.offset, 12);
    assert_eq!(c.take(1), Err(VenusReject::Truncated));
    assert_eq!(c.offset, 12);
    assert_eq!(c.skip_array(u64::MAX, 4), Err(VenusReject::CountOverflow));
    assert_eq!(c.take_padded(u64::MAX), Err(VenusReject::CountOverflow));

    let mut c = Cursor::new(&b);
    assert_eq!(c.take(4), Ok(&b[0..4]));
    assert_eq!(c.skip_array(2, 4), Ok(()));
    assert_eq!(c.offset_u32(), Ok(12));
    let c = Cursor::new(&b);
    assert_eq!(c.bound_loop_count(4), Ok(()));
    assert_eq!(c.bound_loop_count(5), Err(VenusReject::BadArrayCount));

    let mut out = [VenusOperand::default(); 1];
    assert_eq!(push_resource(&mut out, 0, 16, 8), Err(VenusReject::OperandCapacity));
    assert_eq!(push_resource(&mut out, 0, 16, 4), Ok(1));
    assert_eq!(push_resource(&mut out, 1, 20, 4), Err(VenusReject::OperandCapacity));
    assert_eq!(out[0].payload_offset, 16);
}

#[test]
fn every_beginning_and_continuation_of_an_admitted_stream_is_refused() {
    let b = allocation_stream();
    let mut out = [VenusOperand::default(); 2];
    assert!(validate_venus_stream(&b, &mut out).is_ok());
    for n in 0..b.len() {
        assert!(validate_venus_stream(&b[..n], &mut out).is_err());
    }
    for tail in [vec![0u8], vec![0u8; 8], b.clone()] {
        let mut longer = b.clone();
        longer.extend_from_slice(&tail);
        assert_eq!(
            validate_venus_stream(&longer, &mut out),
            Err(VenusReject::TrailingBytes)
        );
    }
}
