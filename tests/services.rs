use nebula_bench::aggregation::GroupKey;
use nebula_bench::dashboard::get_fc_list;
use nebula_bench::invocation::{FunctionResult, Metrics};
use nebula_bench::sensor::LineInEnergySensor;
use nebula_bench::invocation::ModuleType;
use nebula_bench::runner::{fibonacci, parse_output, parse_trimmed_output, DockerModule, OutputError, WasmModule};
use nebula_bench::server::{default_image, default_num_calls, format_micro_to_milli, get_limits, sanitize_input, verify_image};
use nebula_bench::workload::{fill_in_function_gaps, plan_benchmark};

#[test]
fn lib_it_works() {
    let sequence = fibonacci(5);
    assert_eq!(sequence, vec![0, 1, 1, 2, 3]);

    let sequence = fibonacci(9);
    assert_eq!(sequence, vec![0, 1, 1, 2, 3, 5, 8, 13, 21]);
}

const IMAGE_NAME_EXAMPLE: &str = "docker/test_test";

#[test]
fn test_create_wasm_module() {
    let module = WasmModule::<String, String>::new(IMAGE_NAME_EXAMPLE.to_string(), "5".to_string());
    assert_eq!(module.module_name, IMAGE_NAME_EXAMPLE)
}

#[test]
fn test_create_docker_module() {
    let module = DockerModule::<String, String>::new(IMAGE_NAME_EXAMPLE.to_string(), "5".to_string(), None);
    assert_eq!(module.image_name, IMAGE_NAME_EXAMPLE)
}

#[test]
fn module_outputs_and_metrics_flag() {
    let mut w = WasmModule::<String, String>::new("m".to_string(), "1".to_string());
    w.set_output("2".to_string());
    assert_eq!(w.output, Some("2".to_string()));
    let mut d = DockerModule::<String, String>::new("i".to_string(), "1".to_string(), Some(true));
    assert!(d.should_collect_metrics());
    d.set_output("3".to_string());
    assert_eq!(d.output, Some("3".to_string()));
    let n = DockerModule::<String, String>::new("i".to_string(), "1".to_string(), None);
    assert!(!n.should_collect_metrics());
}

#[test]
fn schedule_expands_inputs_and_kinds() {
    let plan = plan_benchmark(&vec![("f".to_string(), 10, 5)], 1);
    let seen: Vec<(String, ModuleType, String, String)> = plan
        .into_iter()
        .map(|r| (r.function_name, r.module_type, r.input, r.base_image))
        .collect();
    assert_eq!(
        seen,
        vec![
            ("f".to_string(), ModuleType::Wasm, "0".to_string(), String::new()),
            ("f".to_string(), ModuleType::Docker, "0".to_string(), "debian".to_string()),
            ("f".to_string(), ModuleType::Wasm, "5".to_string(), String::new()),
            ("f".to_string(), ModuleType::Docker, "5".to_string(), "debian".to_string()),
            ("f".to_string(), ModuleType::Wasm, "10".to_string(), String::new()),
            ("f".to_string(), ModuleType::Docker, "10".to_string(), "debian".to_string()),
        ]
    );
    assert_eq!(plan_benchmark(&vec![("g".to_string(), 9, 5)], 5).len(), 20);
    assert_eq!(plan_benchmark(&vec![("g".to_string(), 9, 0)], 2).len(), 4);
}

#[test]
fn gap_fill_reaches_threshold() {
    let gaps = vec![
        (GroupKey { module_type: ModuleType::Docker, func_name: "a".to_string(), input: "7".to_string() }, 3),
        (GroupKey { module_type: ModuleType::Wasm, func_name: "b".to_string(), input: "1".to_string() }, 6),
    ];
    let plan = fill_in_function_gaps(&gaps, 5);
    assert_eq!(plan.len(), 2);
    assert_eq!(plan[0].function_name, "a");
    assert_eq!(plan[0].input, "7");
    assert_eq!(plan[0].base_image, "debian");
    assert_eq!(plan[1].module_type, ModuleType::Docker);
}

#[test]
fn request_defaults_and_images() {
    assert_eq!(default_num_calls(), 1);
    assert_eq!(default_image(), "debian");
    assert!(verify_image("debian"));
    assert!(verify_image("ubuntu"));
    assert!(verify_image("archlinux"));
    assert!(!verify_image("alpine"));
    assert!(!verify_image(""));
}

#[test]
fn inputs_are_clamped_to_limits() {
    let limits = get_limits();
    assert_eq!(limits.len(), 5);
    assert_eq!(sanitize_input("fibonacci-recursive", "100", &limits), "40");
    assert_eq!(sanitize_input("fibonacci-recursive", "+12", &limits), "12");
    assert_eq!(sanitize_input("fibonacci-recursive", "abc", &limits), "0");
    assert_eq!(sanitize_input("factorial", "500001", &limits), "500000");
    assert_eq!(sanitize_input("unknown", "abc", &limits), "abc");
}

#[test]
fn durations_in_milliseconds() {
    assert_eq!(format_micro_to_milli(&1234), "1.23ms");
    assert_eq!(format_micro_to_milli(&1235), "1.24ms");
    assert_eq!(format_micro_to_milli(&5), "0.01ms");
    assert_eq!(format_micro_to_milli(&0), "0.00ms");
    assert_eq!(format_micro_to_milli(&250_000), "250.00ms");
}

#[test]
fn container_output_is_parsed() {
    assert_eq!(parse_output(" 42|1500\n", 1000), Ok(("42".to_string(), 500)));
    assert_eq!(parse_output("7|20|extra", 5), Ok(("7".to_string(), 15)));
    assert_eq!(parse_output("42", 0), Err(OutputError::NoTimestamp));
    assert_eq!(parse_output("42|x", 0), Err(OutputError::InvalidTimestamp));
    assert_eq!(parse_output("42|3", 4), Err(OutputError::TimestampBeforeStart));
}

#[test]
fn register_addresses() {
    assert_eq!(LineInEnergySensor::Current.address(), 0x406);
    assert_eq!(LineInEnergySensor::PowerFactor.address(), 0x40a);
}

fn timed(kind: ModuleType, startup: u64, total: u64) -> FunctionResult {
    FunctionResult {
        metrics: Some(Metrics {
            startup_time: startup,
            start_since_epoch: 0,
            total_runtime: total,
            end_since_epoch: total + 1,
            startup_percentage: 0,
            power: None,
        }),
        result: String::new(),
        func_type: kind,
        func_name: "f".to_string(),
        input: "1".to_string(),
        base_image: String::new(),
    }
}

#[test]
fn invocation_list_averages_per_kind() {
    let list = get_fc_list(vec![
        timed(ModuleType::Wasm, 10, 100),
        timed(ModuleType::Wasm, 21, 201),
        timed(ModuleType::Docker, 1000, 5000),
    ]);
    assert_eq!(list.function_results.len(), 3);
    assert_eq!(list.total_wasm_invocations, 2);
    assert_eq!(list.total_docker_invocations, 1);
    assert_eq!(list.avg_wasm_startup, 15);
    assert_eq!(list.avg_wasm_runtime, 135);
    assert_eq!(list.avg_wasm_total_time, 150);
    assert_eq!(list.avg_docker_startup, 1000);
    assert_eq!(list.avg_docker_runtime, 4000);
    assert_eq!(list.avg_docker_total_time, 5000);
    assert_eq!(list.format_time(&list.avg_docker_total_time), "5.00ms");
    let empty = get_fc_list(vec![]);
    assert_eq!(empty.total_wasm_invocations, 0);
    assert_eq!(empty.avg_docker_runtime, 0);
}

#[test]
fn trimmed_output_is_parsed() {
    assert_eq!(parse_trimmed_output("42|1500", 1000), Ok(("42".to_string(), 500)));
    assert_eq!(parse_trimmed_output(" 42|1500", 1000), Ok((" 42".to_string(), 500)));
    assert_eq!(parse_trimmed_output("42|1500 ", 1000), Err(OutputError::InvalidTimestamp));
    assert_eq!(parse_trimmed_output("|9", 9), Ok((String::new(), 0)));
}

#[test]
fn invocation_list_ignores_window_order() {
    let mut r = timed(ModuleType::Docker, 4, 10);
    if let Some(m) = r.metrics.as_mut() {
        m.start_since_epoch = 50;
        m.end_since_epoch = 50;
    }
    let list = get_fc_list(vec![r]);
    assert_eq!(list.avg_docker_runtime, 6);
}
