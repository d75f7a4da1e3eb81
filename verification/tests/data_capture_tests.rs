use std::cell::RefCell;
use std::rc::Rc;

use klata::data_capture::Clock;
use klata::data_capture::Data;
use klata::data_capture::DataCapture;
use klata::data_capture::TestClock;
use klata::observer::ObserverHandle;
use klata::text_model::CharacterStatus;
use klata::text_model::TextModel;

#[test]
fn typing_on_model_gathers_data() {
    let data_capture = Rc::new(RefCell::new(DataCapture::<TestClock>::new()));
    let file_str = "<klata_text><text>wah-blow</text></klata_text>";
    let mut model = TextModel::from_string(file_str).unwrap();
    model.register_observer(ObserverHandle::new(&data_capture));

    model.type_character('w');
    model.type_character('a');
    model.type_character('g');

    assert_eq!(
        data_capture.borrow().data,
        vec![
            (0u64, Data::CharacterTyped('w', CharacterStatus::Correct)),
            (10u64, Data::CharacterTyped('a', CharacterStatus::Correct)),
            (20u64, Data::CharacterTyped('g', CharacterStatus::Wrong)),
        ]
    );
}

#[test]
fn backspace_is_captured_in_order() {
    let data_capture = Rc::new(RefCell::new(DataCapture::<TestClock>::new()));
    let file_str = "<klata_text><text>yo</text></klata_text>";
    let mut model = TextModel::from_string(file_str).unwrap();
    model.register_observer(ObserverHandle::new(&data_capture));

    model.type_character('y');
    model.type_character('x');
    model.backspace();
    model.type_character('o');

    assert_eq!(
        data_capture.borrow().data,
        vec![
            (0u64, Data::CharacterTyped('y', CharacterStatus::Correct)),
            (10u64, Data::CharacterTyped('x', CharacterStatus::Wrong)),
            (20u64, Data::Backspace),
            (30u64, Data::CharacterTyped('o', CharacterStatus::Corrected)),
        ]
    );
}

#[test]
fn out_of_bounds_mutations_emit_nothing() {
    let data_capture = Rc::new(RefCell::new(DataCapture::<TestClock>::new()));
    let file_str = "<klata_text><text>a</text></klata_text>";
    let mut model = TextModel::from_string(file_str).unwrap();
    model.register_observer(ObserverHandle::new(&data_capture));

    model.backspace();
    model.type_character('a');
    model.type_character('b');

    assert_eq!(
        data_capture.borrow().data,
        vec![(0u64, Data::CharacterTyped('a', CharacterStatus::Correct))]
    );
}

#[test]
fn dropped_observer_is_not_invoked_and_later_registrations_work() {
    let file_str = "<klata_text><text>abc</text></klata_text>";
    let mut model = TextModel::from_string(file_str).unwrap();

    let dropped = Rc::new(RefCell::new(DataCapture::<TestClock>::new()));
    model.register_observer(ObserverHandle::new(&dropped));
    drop(dropped);

    model.type_character('a');

    let live = Rc::new(RefCell::new(DataCapture::<TestClock>::new()));
    model.register_observer(ObserverHandle::new(&live));
    model.type_character('b');

    assert_eq!(
        live.borrow().data,
        vec![(0u64, Data::CharacterTyped('b', CharacterStatus::Correct))]
    );
}

#[test]
fn test_clock_counts_in_tens() {
    let mut capture = DataCapture::<TestClock>::new();
    assert_eq!(capture.clock.elapsed(), 0);
    assert_eq!(capture.clock.elapsed(), 10);
    assert_eq!(capture.clock.elapsed(), 20);
}
