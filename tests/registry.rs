use extism_runtime::context::{CallPlan, Compiled, Context};
use extism_runtime::dispatch::CallOutcome;
use extism_runtime::error::HostError;

fn module(id: u32, exports: &[(&str, usize)]) -> Result<Compiled<u32>, String> {
    Ok(Compiled {
        instance: id,
        memory_size: 65536,
        exports: exports.iter().map(|(n, k)| (n.to_string(), *k)).collect(),
    })
}

fn s(x: &str) -> String {
    x.to_string()
}

#[test]
fn new_plugins_get_distinct_nonnegative_indices() {
    let mut ctx: Context<u32> = Context::new();
    let a = ctx.new_plugin(module(1, &[]), false);
    let b = ctx.new_plugin(module(2, &[]), false);
    let c = ctx.new_plugin(module(3, &[]), true);
    assert_eq!((a, b, c), (0, 1, 2));
    assert!(ctx.plugin_exists(a) && ctx.plugin_exists(b) && ctx.plugin_exists(c));
}

#[test]
fn compile_failure_sets_context_error() {
    let mut ctx: Context<u32> = Context::new();
    let r = ctx.new_plugin(Err(s("bad magic")), false);
    assert_eq!(r, -1);
    assert_eq!(ctx.error(-1), Some(&HostError::Compile(s("bad magic"))));
    assert!(!ctx.plugin_exists(0));
}

#[test]
fn freed_index_is_not_found_and_others_survive() {
    let mut ctx: Context<u32> = Context::new();
    let a = ctx.new_plugin(module(1, &[("run", 1)]), false);
    let b = ctx.new_plugin(module(2, &[("run", 1)]), false);
    ctx.remove(a);
    assert!(!ctx.plugin_exists(a));
    assert!(ctx.plugin_exists(b));
    assert_eq!(ctx.begin_call(a, &s("run"), vec![]), CallPlan::NotFound);
    assert_eq!(ctx.error(-1), Some(&HostError::PluginNotFound(a)));
    assert!(!ctx.plugin_config(a, b"{}"));
    assert!(!ctx.function_exists(a, &s("run")));
    assert!(matches!(ctx.begin_call(b, &s("run"), vec![]), CallPlan::Run { .. }));
    // removing again is a no-op
    ctx.remove(a);
    assert!(ctx.plugin_exists(b));
}

#[test]
fn reset_drops_all_and_indices_restart() {
    let mut ctx: Context<u32> = Context::new();
    ctx.new_plugin(module(1, &[]), false);
    ctx.new_plugin(module(2, &[]), false);
    ctx.reset();
    assert!(!ctx.plugin_exists(0) && !ctx.plugin_exists(1));
    assert_eq!(ctx.new_plugin(module(3, &[]), false), 0);
}

#[test]
fn update_requires_existing_index() {
    let mut ctx: Context<u32> = Context::new();
    assert!(!ctx.update(4, module(1, &[]), false));
    assert_eq!(ctx.error(-1), Some(&HostError::PluginNotFound(4)));
    let a = ctx.new_plugin(module(1, &[]), false);
    ctx.set_output(a, 10, 4);
    assert!(ctx.update(a, module(9, &[("f", 0)]), true));
    assert_eq!(ctx.output_length(a), 0);
    assert!(ctx.function_exists(a, &s("f")));
    assert!(!ctx.update(a, Err(s("oops")), false));
    assert_eq!(ctx.error(-1), Some(&HostError::Compile(s("oops"))));
    assert!(ctx.function_exists(a, &s("f")));
}

#[test]
fn config_merge_sets_then_removes() {
    let mut ctx: Context<u32> = Context::new();
    let a = ctx.new_plugin(module(1, &[]), false);
    assert!(ctx.plugin_config(a, br#"{"a": "1", "b": "2"}"#));
    assert!(ctx.plugin_config(a, br#"{"a": null}"#));
    let p = ctx.plugins.get(&a).unwrap();
    assert_eq!(p.manifest.config, vec![(s("b"), s("2"))]);
}

#[test]
fn config_with_wasi_mirrors_environment() {
    let mut ctx: Context<u32> = Context::new();
    let a = ctx.new_plugin(module(1, &[]), true);
    assert!(ctx.plugin_config(a, br#"{"k": "v"}"#));
    assert!(ctx.plugin_config(a, br#"{"k": null}"#));
    let p = ctx.plugins.get(&a).unwrap();
    assert!(p.manifest.config.is_empty());
    let env = &p.manifest.wasi.as_ref().unwrap().env;
    assert_eq!(env, &vec![(s("k"), s("v")), (s("k"), s(""))]);
}

#[test]
fn invalid_config_json_is_reported_on_plugin() {
    let mut ctx: Context<u32> = Context::new();
    let a = ctx.new_plugin(module(1, &[]), false);
    assert!(ctx.plugin_config(a, br#"{"a": "1"}"#));
    assert!(!ctx.plugin_config(a, b"{not json"));
    assert!(!ctx.plugin_config(a, br#"{"a": 5}"#));
    assert!(matches!(ctx.error(a), Some(HostError::InvalidConfig(m)) if !m.is_empty()));
    let p = ctx.plugins.get(&a).unwrap();
    assert_eq!(p.manifest.config, vec![(s("a"), s("1"))]);
}

#[test]
fn two_results_are_rejected_before_running() {
    let mut ctx: Context<u32> = Context::new();
    let a = ctx.new_plugin(module(1, &[("pair", 2)]), false);
    ctx.set_output(a, 8, 4);
    let plan = ctx.begin_call(a, &s("pair"), vec![1, 2, 3]);
    assert_eq!(plan, CallPlan::Rejected);
    assert_eq!(
        ctx.error(a),
        Some(&HostError::TooManyResults { name: s("pair"), count: 2 })
    );
    let p = ctx.plugins.get(&a).unwrap();
    assert!(p.memory.input.is_empty());
    assert_eq!((p.memory.output_offset, p.memory.output_length), (8, 4));
}

#[test]
fn missing_function_returns_failure_with_its_name() {
    let mut ctx: Context<u32> = Context::new();
    let a = ctx.new_plugin(module(1, &[("run", 1)]), false);
    assert_eq!(ctx.begin_call(a, &s("nope"), vec![]), CallPlan::Rejected);
    assert_eq!(ctx.error(a), Some(&HostError::FunctionNotFound(s("nope"))));
    assert!(!ctx.function_exists(a, &s("nope")));
    assert!(ctx.function_exists(a, &s("run")));
}

#[test]
fn add_scenario_writes_sum_as_output() {
    let mut ctx: Context<u32> = Context::new();
    let a = ctx.new_plugin(module(1, &[("add", 1)]), false);
    let plan = ctx.begin_call(a, &s("add"), vec![2, 0, 0, 0, 3, 0, 0, 0]);
    assert_eq!(plan, CallPlan::Run { reinstantiate: false, results: 1, timer_id: a as u64 });
    // the guest: read two little-endian i32 values, write their sum at 1024
    let mut linear = vec![0u8; 65536];
    let input = ctx.plugins.get(&a).unwrap().memory.input.clone();
    let x = i32::from_le_bytes(input[0..4].try_into().unwrap());
    let y = i32::from_le_bytes(input[4..8].try_into().unwrap());
    linear[1024..1028].copy_from_slice(&(x + y).to_le_bytes());
    assert!(ctx.set_output(a, 1024, 4));
    let code = ctx.finish_call(a, &s("add"), CallOutcome::Returned(Some(0)), true);
    assert_eq!(code, 0);
    assert_eq!(ctx.output_length(a), 4);
    let (start, end) = ctx.output_range(a).unwrap();
    assert_eq!(i32::from_le_bytes(linear[start..end].try_into().unwrap()), 5);
}

#[test]
fn output_outside_memory_has_no_range() {
    let mut ctx: Context<u32> = Context::new();
    let a = ctx.new_plugin(module(1, &[]), false);
    ctx.set_output(a, 65530, 10);
    assert_eq!(ctx.output_range(a), None);
    assert_eq!(ctx.output_range(7), None);
    assert_eq!(ctx.output_length(7), 0);
}

#[test]
fn timeout_is_classified_and_plugin_stays_usable() {
    let mut ctx: Context<u32> = Context::new();
    let a = ctx.new_plugin(module(1, &[("spin", 0), ("ok", 0)]), false);
    assert!(matches!(ctx.begin_call(a, &s("spin"), vec![]), CallPlan::Run { .. }));
    let out = CallOutcome::Trapped { root_cause: s("timeout"), message: s("wasm trap: interrupt") };
    assert_eq!(ctx.finish_call(a, &s("spin"), out, true), -1);
    assert_eq!(ctx.error(a), Some(&HostError::Timeout));
    assert!(matches!(ctx.begin_call(a, &s("ok"), vec![]), CallPlan::Run { results: 0, .. }));
    assert_eq!(ctx.finish_call(a, &s("ok"), CallOutcome::Returned(None), true), 0);
}

#[test]
fn other_traps_and_exit_codes() {
    let mut ctx: Context<u32> = Context::new();
    let a = ctx.new_plugin(module(1, &[("f", 1)]), false);
    let trap = CallOutcome::Trapped { root_cause: s("unreachable"), message: s("trap: unreachable") };
    assert_eq!(ctx.finish_call(a, &s("f"), trap, true), -1);
    assert_eq!(ctx.error(a), Some(&HostError::CallFailed(s("trap: unreachable"))));
    let exit = CallOutcome::Exit { code: 3, message: s("exit 3") };
    assert_eq!(ctx.finish_call(a, &s("f"), exit, true), 3);
    assert_eq!(ctx.error(a), Some(&HostError::Exit { code: 3, message: s("exit 3") }));
    let clean = CallOutcome::Exit { code: 0, message: s("exit 0") };
    assert_eq!(ctx.finish_call(a, &s("f"), clean, true), 0);
    assert_eq!(ctx.finish_call(a, &s("f"), CallOutcome::Returned(Some(42)), true), 42);
}

#[test]
fn timer_failures_fail_the_call() {
    let mut ctx: Context<u32> = Context::new();
    let a = ctx.new_plugin(module(1, &[("f", 0)]), false);
    assert_eq!(ctx.fail_timer_start(a), -1);
    assert_eq!(ctx.error(a), Some(&HostError::TimerStart(a as u64)));
    assert_eq!(ctx.finish_call(a, &s("f"), CallOutcome::Returned(None), false), -1);
    assert_eq!(ctx.error(a), Some(&HostError::TimerStop(a as u64)));
}

#[test]
fn wasi_start_twice_reinstantiates() {
    let mut ctx: Context<u32> = Context::new();
    let a = ctx.new_plugin(module(1, &[("_start", 0)]), true);
    let first = ctx.begin_call(a, &s("_start"), vec![1]);
    assert_eq!(first, CallPlan::Run { reinstantiate: false, results: 0, timer_id: a as u64 });
    ctx.set_output(a, 100, 5);
    assert_eq!(ctx.finish_call(a, &s("_start"), CallOutcome::Exit { code: 0, message: s("") }, true), 0);
    let second = ctx.begin_call(a, &s("_start"), vec![2]);
    assert_eq!(second, CallPlan::Run { reinstantiate: true, results: 0, timer_id: a as u64 });
    assert!(ctx.install_instance(a, 77, 131072));
    let p = ctx.plugins.get(&a).unwrap();
    assert_eq!(p.instance, 77);
    assert_eq!((p.memory.output_offset, p.memory.output_length), (0, 0));
    assert_eq!(p.memory.input, vec![2]);
    assert_eq!(p.memory.size, 131072);
    assert!(!p.should_reinstantiate);
}

#[test]
fn start_without_wasi_keeps_instance() {
    let mut ctx: Context<u32> = Context::new();
    let a = ctx.new_plugin(module(1, &[("_start", 0)]), false);
    ctx.begin_call(a, &s("_start"), vec![]);
    ctx.finish_call(a, &s("_start"), CallOutcome::Returned(None), true);
    let again = ctx.begin_call(a, &s("_start"), vec![]);
    assert_eq!(again, CallPlan::Run { reinstantiate: false, results: 0, timer_id: a as u64 });
}
