use demu::model::instruction::{CopySource, Instruction};

#[test]
fn copy_source_host_stores_path() {
    let path = "./src".to_string();
    let src = CopySource::Host(path.clone());
    assert_eq!(src, CopySource::Host(path));
}

#[test]
fn copy_source_stage_stores_name_and_src_path() {
    let src = CopySource::Stage { name: "builder".to_string(), src_path: "/out/app".to_string() };
    assert_eq!(src, CopySource::Stage { name: "builder".to_string(), src_path: "/out/app".to_string() });
}

#[test]
fn copy_source_host_and_stage_are_not_equal() {
    let host = CopySource::Host("builder".to_string());
    let stage = CopySource::Stage { name: "builder".to_string(), src_path: "/out/app".to_string() };
    assert_ne!(host, stage);
}

#[test]
fn instruction_from_without_alias() {
    let inst = Instruction::From { image: "ubuntu:22.04".to_string(), alias: None };
    assert_eq!(inst, Instruction::From { image: "ubuntu:22.04".to_string(), alias: None });
}

#[test]
fn instruction_from_with_alias() {
    let inst = Instruction::From { image: "rust:1.75".to_string(), alias: Some("builder".to_string()) };
    assert_eq!(inst, Instruction::From { image: "rust:1.75".to_string(), alias: Some("builder".to_string()) });
}

#[test]
fn instruction_workdir_stores_path() {
    let inst = Instruction::Workdir { path: "/app".to_string() };
    assert_eq!(inst, Instruction::Workdir { path: "/app".to_string() });
}

#[test]
fn instruction_copy_with_host_source() {
    let inst = Instruction::Copy { source: CopySource::Host(".".to_string()), dest: "/app".to_string() };
    assert_eq!(inst, Instruction::Copy { source: CopySource::Host(".".to_string()), dest: "/app".to_string() });
}

#[test]
fn instruction_copy_with_stage_source() {
    let inst = Instruction::Copy {
        source: CopySource::Stage { name: "builder".to_string(), src_path: "/out/app".to_string() },
        dest: "/app/binary".to_string(),
    };
    assert_eq!(
        inst,
        Instruction::Copy {
            source: CopySource::Stage { name: "builder".to_string(), src_path: "/out/app".to_string() },
            dest: "/app/binary".to_string()
        }
    );
}

#[test]
fn instruction_env_stores_key_and_value() {
    let inst = Instruction::Env { key: "NODE_ENV".to_string(), value: "production".to_string() };
    assert_eq!(inst, Instruction::Env { key: "NODE_ENV".to_string(), value: "production".to_string() });
}

#[test]
fn instruction_run_stores_command_text() {
    let inst = Instruction::Run { command: "apt-get install -y curl".to_string() };
    assert_eq!(inst, Instruction::Run { command: "apt-get install -y curl".to_string() });
}

#[test]
fn instruction_unknown_stores_raw_text() {
    let inst = Instruction::Unknown { raw: "HEALTHCHECK CMD curl http://localhost".to_string() };
    assert_eq!(inst, Instruction::Unknown { raw: "HEALTHCHECK CMD curl http://localhost".to_string() });
}

#[test]
fn instruction_clone_produces_equal_value() {
    let inst = Instruction::Run { command: "echo hello".to_string() };
    assert_eq!(inst.clone(), inst);
}

#[test]
fn different_instruction_variants_are_not_equal() {
    let run = Instruction::Run { command: "echo hi".to_string() };
    let unknown = Instruction::Unknown { raw: "echo hi".to_string() };
    assert_ne!(run, unknown);
}
