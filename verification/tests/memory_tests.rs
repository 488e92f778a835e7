use etd3200::emulator::memory::{Memory, SimpleMemory, MEMORY_SIZE};
use rand::Fill;

#[test]
fn memory_test_memory_setting() {
    let mut rng = rand::thread_rng();
    for i in 0..10 {
        let mut values = [0; MEMORY_SIZE as usize];
        values.try_fill(&mut rng).unwrap();
        let mut memory = SimpleMemory::new();

        for (value, address) in values.iter().zip(0..) {
            memory.write(address, *value).ok();
        }
        for (value, address) in values.iter().zip(0..) {
            assert_eq!(
                Some(*value),
                memory.read(address),
                "Write/Read num {} from ADDR: {} failed",
                i,
                address
            );
        }
    }
}
