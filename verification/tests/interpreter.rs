use chip8::decoder::decode;
use chip8::decoder::high;
use chip8::decoder::low;
use chip8::machine::Chip8;
use chip8::machine::StepOutcome;
use chip8::memory::Memory;
use chip8::registers::Registers;
use chip8::Chip8Error;

#[test]
fn write_then_read_round_trip() {
    let mut m = Memory::new();
    for &(a, v) in &[(0usize, 0x01u8), (1, 0xFF), (512, 0xAB), (2048, 0x55), (4095, 0x7E)] {
        assert_eq!(m.write_byte(a, v), Ok(()));
        assert_eq!(m.read_byte(a), Ok(v));
    }
}

#[test]
fn read_write_out_of_bounds() {
    let mut m = Memory::new();
    assert_eq!(m.read_byte(4096), Err(Chip8Error::OutOfBounds { addr: 4096 }));
    assert_eq!(m.read_byte(5000), Err(Chip8Error::OutOfBounds { addr: 5000 }));
    assert_eq!(m.write_byte(4096, 0x11), Err(Chip8Error::OutOfBounds { addr: 4096 }));
    assert_eq!(m.write_byte(usize::MAX, 0x22), Err(Chip8Error::OutOfBounds { addr: usize::MAX }));
}

#[test]
fn read_word_big_endian() {
    let mut m = Memory::new();
    assert_eq!(m.write_byte(10, 0xAB), Ok(()));
    assert_eq!(m.write_byte(11, 0xCD), Ok(()));
    assert_eq!(m.read_word(10), Ok(0xABCD));
    assert_eq!(m.read_word(4094), Ok(0x0000));
    assert_eq!(m.read_word(4095), Err(Chip8Error::OutOfBounds { addr: 4095 }));
}

#[test]
fn put_then_get_round_trip() {
    let mut r = Registers::new();
    for id in 0u8..16 {
        let v = 0x10 + id;
        assert_eq!(r.put(id, v), Ok(()));
        assert_eq!(r.get(id), Ok(v));
    }
    // A later write to one register leaves the others as they were.
    assert_eq!(r.put(0x3, 0x99), Ok(()));
    assert_eq!(r.get(0x2), Ok(0x12));
    assert_eq!(r.get(0x4), Ok(0x14));
}

#[test]
fn invalid_register_ids() {
    let mut r = Registers::new();
    assert_eq!(r.get(0x10), Err(Chip8Error::InvalidRegister { id: 0x10 }));
    assert_eq!(r.put(0x10, 0x01), Err(Chip8Error::InvalidRegister { id: 0x10 }));
    assert_eq!(r.get(0xFF), Err(Chip8Error::InvalidRegister { id: 0xFF }));
    assert_eq!(r.put(0xFF, 0x01), Err(Chip8Error::InvalidRegister { id: 0xFF }));
}

#[test]
fn address_register_round_trip() {
    let mut r = Registers::new();
    assert_eq!(r.get_address_register(), 0);
    r.set_address_register(0xBEEF);
    assert_eq!(r.get_address_register(), 0xBEEF);
}

#[test]
fn nibble_helpers() {
    assert_eq!(high(0xA7), 0xA);
    assert_eq!(low(0xA7), 0x7);
    assert_eq!(high(0x0F), 0x0);
    assert_eq!(low(0xF0), 0x0);
}

#[test]
fn decode_load_address_word() {
    let d = decode(0xA123);
    assert_eq!(d.family, 0xA);
    assert_eq!(d.nnn, 0x123);
    assert_eq!(d.x, 0x1);
    assert_eq!(d.y, 0x2);
    assert_eq!(d.n, 0x3);
    assert_eq!(d.kk, 0x23);
}

#[test]
fn decode_load_immediate_word() {
    let d = decode(0x6A45);
    assert_eq!(d.family, 0x6);
    assert_eq!(d.x, 0xA);
    assert_eq!(d.kk, 0x45);
    assert_eq!(d.y, 0x4);
    assert_eq!(d.n, 0x5);
    assert_eq!(d.nnn, 0xA45);
}

#[test]
fn fresh_machine_is_zeroed() {
    let c = Chip8::new();
    let s = c.snapshot();
    assert_eq!(s.ram.len(), 4096);
    assert!(s.ram.iter().all(|&b| b == 0));
    assert_eq!(s.v.len(), 16);
    assert!(s.v.iter().all(|&b| b == 0));
    assert_eq!(s.i, 0);
    assert_eq!(s.pc, 0);
    assert_eq!(s.sp, 0);
    assert_eq!(s.stack.len(), 16);
    assert!(s.stack.iter().all(|&w| w == 0));
}

#[test]
fn cycle_load_address_register() {
    let mut c = Chip8::new();
    assert_eq!(c.load_image(&vec![0xA1, 0x23]), Ok(()));
    assert_eq!(c.step(), Ok(StepOutcome::Running));
    let s = c.snapshot();
    assert_eq!(s.i, 0x123);
    assert_eq!(s.pc, 514);
}

#[test]
fn cycle_load_register_immediate() {
    let mut c = Chip8::new();
    assert_eq!(c.load_image(&vec![0x6B, 0x77]), Ok(()));
    assert_eq!(c.step(), Ok(StepOutcome::Running));
    let s = c.snapshot();
    assert_eq!(s.v[0xB], 0x77);
    assert_eq!(s.pc, 514);
}

#[test]
fn cycle_unrecognized_family_halts() {
    let mut c = Chip8::new();
    assert_eq!(c.load_image(&vec![0xFF, 0xFF]), Ok(()));
    assert_eq!(
        c.step(),
        Ok(StepOutcome::UnrecognizedInstruction { word: 0xFFFF, addr: 512 })
    );
    // The program counter stands where the failing fetch occurred.
    assert_eq!(c.snapshot().pc, 512);
    // Stepping again reports the same halt: the state is unchanged.
    assert_eq!(
        c.step(),
        Ok(StepOutcome::UnrecognizedInstruction { word: 0xFFFF, addr: 512 })
    );
}

#[test]
fn oversized_image_is_rejected() {
    let mut c = Chip8::new();
    assert_eq!(c.load_image(&vec![0x6B, 0x77]), Ok(()));
    assert_eq!(c.step(), Ok(StepOutcome::Running));
    let before = c.snapshot();
    // 4096 - 512 = 3584 bytes fit; one more does not.
    let r = c.load_image(&vec![0xEE; 3585]);
    assert_eq!(r, Err(Chip8Error::OutOfBounds { addr: 512 }));
    assert_eq!(c.snapshot(), before);
}

#[test]
fn oversized_load_leaves_memory_unchanged() {
    let mut m = Memory::new();
    assert_eq!(m.write_byte(100, 0x42), Ok(()));
    assert_eq!(m.load(512, &vec![0xEE; 3585]), Err(Chip8Error::OutOfBounds { addr: 512 }));
    assert_eq!(m.read_byte(100), Ok(0x42));
    assert_eq!(m.read_byte(512), Ok(0x00));
}

#[test]
fn exact_fit_image_loads() {
    let mut m = Memory::new();
    assert_eq!(m.load(512, &vec![0x77; 3584]), Ok(()));
    assert_eq!(m.read_byte(511), Ok(0x00));
    assert_eq!(m.read_byte(512), Ok(0x77));
    assert_eq!(m.read_byte(4095), Ok(0x77));
}

#[test]
fn empty_image_loads() {
    let mut c = Chip8::new();
    assert_eq!(c.load_image(&vec![]), Ok(()));
    assert_eq!(c.snapshot().pc, 512);
}

#[test]
fn load_at_alternate_offset() {
    let mut c = Chip8::new();
    assert_eq!(c.load_image_at(1536, &vec![0xA1, 0x23]), Ok(()));
    assert_eq!(c.snapshot().pc, 1536);
    assert_eq!(c.step(), Ok(StepOutcome::Running));
    let s = c.snapshot();
    assert_eq!(s.i, 0x123);
    assert_eq!(s.pc, 1538);
}

#[test]
fn snapshot_idempotent() {
    let mut c = Chip8::new();
    assert_eq!(c.load_image(&vec![0x6B, 0x77, 0xFF, 0xFF]), Ok(()));
    assert_eq!(c.step(), Ok(StepOutcome::Running));
    let s1 = c.snapshot();
    let s2 = c.snapshot();
    assert_eq!(s1, s2);
}

#[test]
fn run_until_halt() {
    let mut c = Chip8::new();
    assert_eq!(c.load_image(&vec![0x6B, 0x77, 0xA1, 0x23, 0xFF, 0xFF]), Ok(()));
    assert_eq!(
        c.run(),
        Ok(StepOutcome::UnrecognizedInstruction { word: 0xFFFF, addr: 516 })
    );
    let s = c.snapshot();
    assert_eq!(s.v[0xB], 0x77);
    assert_eq!(s.i, 0x123);
    assert_eq!(s.pc, 516);
}

#[test]
fn run_halts_immediately_on_unrecognized() {
    let mut c = Chip8::new();
    assert_eq!(c.load_image(&vec![0xFF, 0xFF]), Ok(()));
    assert_eq!(
        c.run(),
        Ok(StepOutcome::UnrecognizedInstruction { word: 0xFFFF, addr: 512 })
    );
    assert_eq!(c.snapshot().pc, 512);
}

#[test]
fn run_is_deterministic() {
    let img = vec![0x6B, 0x77, 0xA1, 0x23, 0xFF, 0xFF];
    let mut c1 = Chip8::new();
    let mut c2 = Chip8::new();
    assert_eq!(c1.load_image(&img), Ok(()));
    assert_eq!(c2.load_image(&img), Ok(()));
    assert_eq!(c1.run(), c2.run());
    assert_eq!(c1.snapshot(), c2.snapshot());
}

#[test]
fn run_off_the_end_of_memory() {
    // Fill every address from 512 up with `0x6000` instructions: the run
    // marches the program counter to 4096, where the next fetch cannot fit.
    let mut c = Chip8::new();
    let mut img: Vec<u8> = Vec::new();
    for _ in 0..1792 {
        img.push(0x60);
        img.push(0x00);
    }
    assert_eq!(c.load_image(&img), Ok(()));
    assert_eq!(c.run(), Err(Chip8Error::OutOfBounds { addr: 4096 }));
    assert_eq!(c.snapshot().pc, 4096);
}

#[test]
fn fresh_machine_first_step_halts_on_zero_word() {
    // Before any image is loaded the program counter is zero and memory all
    // zero, so the first fetched word has family 0x0: an unrecognized family.
    let mut c = Chip8::new();
    assert_eq!(
        c.step(),
        Ok(StepOutcome::UnrecognizedInstruction { word: 0x0000, addr: 0 })
    );
}
