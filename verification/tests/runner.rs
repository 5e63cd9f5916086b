use space_thumbnails::runner::{
    converter_command, converter_output_name, run_file_name, step, ConversionFailure, Order,
    Signal, Stage, MEMORY_CEILING_BYTES,
};

#[test]
fn good_run_goes_through_every_step() {
    assert_eq!(MEMORY_CEILING_BYTES, 2_684_354_560);
    let mut stage = Stage::Start;
    let script = [
        (Signal::Go, Order::CreateGroup),
        (Signal::Succeeded, Order::SetLimit(2_684_354_560)),
        (Signal::Succeeded, Order::SpawnConverter),
        (Signal::Succeeded, Order::AssignToGroup),
        (Signal::Succeeded, Order::WaitForExit),
        (Signal::Exited(true), Order::ReadOutput),
        (Signal::Succeeded, Order::Deliver),
    ];
    for (signal, expected) in script {
        let (next, order) = step(stage, signal);
        assert_eq!(order, expected);
        stage = next;
    }
    assert_eq!(stage, Stage::End);
}

#[test]
fn converter_is_not_started_without_the_group() {
    assert_eq!(
        step(Stage::Group, Signal::Failed),
        (Stage::End, Order::Stop(ConversionFailure::GroupUnavailable))
    );
    assert_eq!(
        step(Stage::Limit, Signal::Failed),
        (Stage::End, Order::Stop(ConversionFailure::LimitRefused))
    );
    assert_eq!(
        step(Stage::End, Signal::Succeeded),
        (Stage::End, Order::Stop(ConversionFailure::OutOfTurn))
    );
    assert_eq!(
        step(Stage::Start, Signal::Succeeded),
        (Stage::End, Order::Stop(ConversionFailure::OutOfTurn))
    );
}

#[test]
fn each_failure_is_named() {
    assert_eq!(
        step(Stage::Spawn, Signal::Failed),
        (Stage::End, Order::Stop(ConversionFailure::SpawnFailed))
    );
    assert_eq!(
        step(Stage::Assign, Signal::Failed),
        (Stage::End, Order::KillAndStop(ConversionFailure::NotInGroup))
    );
    assert_eq!(
        step(Stage::Wait, Signal::Exited(false)),
        (Stage::End, Order::Stop(ConversionFailure::ConverterFailed))
    );
    assert_eq!(
        step(Stage::Wait, Signal::Failed),
        (Stage::End, Order::Stop(ConversionFailure::WaitFailed))
    );
    assert_eq!(
        step(Stage::Wait, Signal::Go),
        (Stage::End, Order::KillAndStop(ConversionFailure::OutOfTurn))
    );
    assert_eq!(
        step(Stage::Read, Signal::Failed),
        (Stage::End, Order::Stop(ConversionFailure::OutputUnreadable))
    );
}

#[test]
fn paths_go_into_the_environment() {
    let command = converter_command("C:\\tools\\step2obj.bat", "C:\\in put.step", "C:\\out.obj");
    assert_eq!(command.program, "cmd");
    assert_eq!(command.args, vec!["/C".to_string(), "C:\\tools\\step2obj.bat".to_string()]);
    assert_eq!(
        command.env,
        vec![
            ("STEP2OBJ_INPUT".to_string(), "C:\\in put.step".to_string()),
            ("STEP2OBJ_OUTPUT".to_string(), "C:\\out.obj".to_string()),
        ]
    );
}

#[test]
fn run_files_are_told_apart() {
    let a = converter_output_name();
    let b = converter_output_name();
    assert!(a.starts_with("space_thumbnails_"));
    assert!(a.ends_with(".obj"));
    assert_eq!(a.len(), "space_thumbnails_".len() + 36 + ".obj".len());
    assert_ne!(a, b);
    let c = run_file_name("input_", ".docx");
    assert!(c.starts_with("input_") && c.ends_with(".docx"));
}
