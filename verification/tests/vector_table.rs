use baremetal_rt::memory::Memory;
use baremetal_rt::region::Region;
use baremetal_rt::vector_table::{
    install_vector_table, vector_table_in_place, Exception, TableError, VectorTable,
    FIRST_SOURCE_SLOT, MODE_BIT, RESET_SLOT, STACK_TOP_SLOT, SYSTEM_SOURCES,
};

const STACK_TOP: u32 = 0x2002_0000;
const RESET: u32 = 0x0000_0100;
const DEFAULT: u32 = 0x0000_0200;

fn table_with_three_handlers() -> VectorTable {
    let mut table = VectorTable::new(STACK_TOP, RESET, DEFAULT, 10).unwrap();
    assert_eq!(table.assign(0, 0x0000_0301), Ok(()));
    assert_eq!(table.assign(4, 0x0000_0401), Ok(()));
    assert_eq!(table.assign(9, 0x0000_0501), Ok(()));
    table
}

#[test]
fn three_defined_sources_among_ten() {
    let table = table_with_three_handlers();
    assert_eq!(table.source_count(), 10);
    assert_eq!(table.len(), 12);
    assert_eq!(table.handler(0), Some(0x0000_0301));
    assert_eq!(table.handler(4), Some(0x0000_0401));
    assert_eq!(table.handler(9), Some(0x0000_0501));
    let mut defaults = 0;
    for source in 0..10 {
        if source != 0 && source != 4 && source != 9 {
            assert_eq!(table.handler(source), Some(DEFAULT));
            defaults += 1;
        }
    }
    assert_eq!(defaults, 7);
    assert_eq!(table.entry(STACK_TOP_SLOT), Some(STACK_TOP));
    assert_eq!(table.stack_top(), STACK_TOP);
    assert_eq!(table.entry(RESET_SLOT), Some(0x0000_0101));
    assert_eq!(table.reset_entry(), RESET | MODE_BIT);
    assert_eq!(table.reset_entry() & 1, 1);
    assert_eq!(table.default_handler(), DEFAULT);
}

#[test]
fn table_words_in_slot_order() {
    let table = table_with_three_handlers();
    assert_eq!(
        table.to_words(),
        vec![
            STACK_TOP, 0x0000_0101, 0x0000_0301, DEFAULT, DEFAULT, DEFAULT, 0x0000_0401, DEFAULT,
            DEFAULT, DEFAULT, DEFAULT, 0x0000_0501,
        ]
    );
}

#[test]
fn new_table_routes_every_source_to_the_default_handler() {
    let table = VectorTable::new(STACK_TOP, RESET, DEFAULT, 3).unwrap();
    assert_eq!(table.to_words(), vec![STACK_TOP, RESET | 1, DEFAULT, DEFAULT, DEFAULT]);
}

#[test]
fn table_without_sources_has_the_two_fixed_slots() {
    let table = VectorTable::new(STACK_TOP, 0x0000_0101, DEFAULT, 0).unwrap();
    assert_eq!(table.to_words(), vec![STACK_TOP, 0x0000_0101]);
    assert_eq!(table.handler(0), None);
    assert_eq!(table.entry(2), None);
}

#[test]
fn missing_reset_or_default_handler_is_refused() {
    assert!(matches!(
        VectorTable::new(STACK_TOP, 0, DEFAULT, 10),
        Err(TableError::MissingHandler)
    ));
    assert!(matches!(VectorTable::new(STACK_TOP, RESET, 0, 10), Err(TableError::MissingHandler)));
    assert!(VectorTable::new(0, RESET, DEFAULT, 10).is_ok());
}

#[test]
fn refused_assignment_leaves_the_table_as_it_was() {
    let mut table = table_with_three_handlers();
    let before = table.to_words();
    assert_eq!(table.assign(10, 0x0000_0601), Err(TableError::UnknownSource));
    assert_eq!(table.assign(usize::MAX, 0x0000_0601), Err(TableError::UnknownSource));
    assert_eq!(table.assign(3, 0), Err(TableError::MissingHandler));
    assert_eq!(table.assign(10, 0), Err(TableError::UnknownSource));
    assert_eq!(table.to_words(), before);
}

#[test]
fn assignment_replaces_one_slot() {
    let mut table = table_with_three_handlers();
    let mut expected = table.to_words();
    assert_eq!(table.assign(4, 0x0000_0701), Ok(()));
    expected[FIRST_SOURCE_SLOT + 4] = 0x0000_0701;
    assert_eq!(table.to_words(), expected);
}

#[test]
fn no_handler_slot_is_left_unpopulated() {
    let table = table_with_three_handlers();
    for slot in 1..table.len() {
        assert_ne!(table.entry(slot), Some(0));
        assert!(table.entry(slot).is_some());
    }
    assert_eq!(table.entry(table.len()), None);
}

#[test]
fn installed_table_lies_at_the_base_address() {
    let table = table_with_three_handlers();
    let mut memory = Memory::from_words(vec![7; 20]);
    let region = install_vector_table(&mut memory, &table);
    assert_eq!(region, Some(Region::new(0, 12)));
    assert!(vector_table_in_place(&memory, &Region::new(0, 12)));
    let words = memory.into_words();
    assert_eq!(&words[0..12], &table.to_words()[..]);
    assert_eq!(&words[12..20], &[7; 8]);
}

#[test]
fn table_longer_than_memory_is_not_installed() {
    let table = table_with_three_handlers();
    let mut memory = Memory::from_words(vec![7; 11]);
    assert_eq!(install_vector_table(&mut memory, &table), None);
    assert_eq!(memory.into_words(), vec![7; 11]);
    let mut memory = Memory::from_words(vec![7; 12]);
    assert_eq!(install_vector_table(&mut memory, &table), Some(Region::new(0, 12)));
}

#[test]
fn table_in_memory_is_checked_slot_by_slot() {
    let good = vec![STACK_TOP, 0x101, 0x201, 0x301, 0, 0];
    let memory = Memory::from_words(good.clone());
    assert!(vector_table_in_place(&memory, &Region::new(0, 4)));
    assert!(vector_table_in_place(&memory, &Region::new(0, 2)));
    assert!(!vector_table_in_place(&memory, &Region::new(0, 5)));
    assert!(!vector_table_in_place(&memory, &Region::new(0, 1)));
    assert!(!vector_table_in_place(&memory, &Region::new(1, 4)));
    assert!(!vector_table_in_place(&memory, &Region::new(0, 7)));
    assert!(!vector_table_in_place(&memory, &Region::new(4, 0)));

    let mut no_mode_bit = good.clone();
    no_mode_bit[1] = 0x100;
    assert!(!vector_table_in_place(&Memory::from_words(no_mode_bit), &Region::new(0, 4)));

    let mut zero_stack_top = good;
    zero_stack_top[0] = 0;
    assert!(vector_table_in_place(&Memory::from_words(zero_stack_top), &Region::new(0, 4)));
}

#[test]
fn exceptions_have_the_processors_source_numbers() {
    assert_eq!(Exception::Nmi.source(), 0);
    assert_eq!(Exception::HardFault.source(), 1);
    assert_eq!(Exception::MemManage.source(), 2);
    assert_eq!(Exception::BusFault.source(), 3);
    assert_eq!(Exception::UsageFault.source(), 4);
    assert_eq!(Exception::SvCall.source(), 9);
    assert_eq!(Exception::DebugMonitor.source(), 10);
    assert_eq!(Exception::PendSv.source(), 12);
    assert_eq!(Exception::SysTick.source(), 13);
}

#[test]
fn table_of_the_processors_own_sources() {
    let mut table = VectorTable::new(STACK_TOP, RESET, DEFAULT, SYSTEM_SOURCES).unwrap();
    assert_eq!(table.len(), 16);
    assert_eq!(table.assign(Exception::HardFault.source(), 0x0000_0301), Ok(()));
    assert_eq!(table.assign(Exception::SysTick.source(), 0x0000_0401), Ok(()));
    assert_eq!(table.entry(3), Some(0x0000_0301));
    assert_eq!(table.entry(15), Some(0x0000_0401));
    assert_eq!(table.entry(2), Some(DEFAULT));
    assert_eq!(table.entry(16), None);
}
