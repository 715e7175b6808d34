use rocksdb_in_tikv::check::{
    FdLimitAction, KernelCheckError, KernelParamReading, check_kernel, check_kernel_params,
    check_max_open_fds, kernel_check_table, param_name, parse_i64, trim_nl,
};

#[test]
fn sufficient_fd_limit_passes() {
    assert_eq!(check_max_open_fds(4096, 4096, 4096), FdLimitAction::Sufficient);
    assert_eq!(check_max_open_fds(8192, 8192, 4096), FdLimitAction::Sufficient);
}

#[test]
fn low_fd_limit_is_raised() {
    assert_eq!(
        check_max_open_fds(1024, 8192, 4096),
        FdLimitAction::Raise { cur: 4096, max: 8192 }
    );
    assert_eq!(
        check_max_open_fds(1024, 2048, 4096),
        FdLimitAction::Raise { cur: 4096, max: 4096 }
    );
}

#[test]
fn parses_kernel_parameter_integers() {
    assert_eq!(parse_i64("0"), Some(0));
    assert_eq!(parse_i64("60"), Some(60));
    assert_eq!(parse_i64("-3"), Some(-3));
    assert_eq!(parse_i64("+7"), Some(7));
    assert_eq!(parse_i64("9223372036854775807"), Some(i64::MAX));
    assert_eq!(parse_i64("-9223372036854775808"), Some(i64::MIN));
    assert_eq!(parse_i64("9223372036854775808"), None);
    assert_eq!(parse_i64(""), None);
    assert_eq!(parse_i64("-"), None);
    assert_eq!(parse_i64("4x"), None);
}

#[test]
fn trims_surrounding_newlines() {
    assert_eq!(trim_nl("0\n"), "0");
    assert_eq!(trim_nl("\n\n60\n\n"), "60");
    assert_eq!(trim_nl("plain"), "plain");
    assert_eq!(trim_nl("\n\n"), "");
    assert_eq!(trim_nl("a\nb"), "a\nb");
}

#[test]
fn derives_the_dotted_parameter_name() {
    assert_eq!(param_name("/proc/sys/vm/swappiness"), "vm.swappiness");
    assert_eq!(param_name("/proc/sys/net/core/somaxconn"), "net.core.somaxconn");
    assert_eq!(param_name("/proc/sys"), "");
}

#[test]
fn matching_kernel_parameter_passes() {
    assert!(check_kernel_params("/proc/sys/vm/swappiness", "0\n", 0).is_ok());
}

#[test]
fn mismatching_kernel_parameter_reports_name_and_values() {
    match check_kernel_params("/proc/sys/vm/swappiness", "60\n", 0) {
        Err(KernelCheckError::Mismatch { param, got, expect }) => {
            assert_eq!(param, "vm.swappiness");
            assert_eq!(got, 60);
            assert_eq!(expect, 0);
        }
        other => panic!("expected a mismatch, got {:?}", other),
    }
}

#[test]
fn unparsable_kernel_parameter_reports_the_path() {
    match check_kernel_params("/proc/sys/vm/swappiness", "junk\n", 0) {
        Err(KernelCheckError::ParseFailed { path }) => {
            assert_eq!(path, "/proc/sys/vm/swappiness");
        }
        other => panic!("expected a parse failure, got {:?}", other),
    }
}

#[test]
fn check_kernel_collects_each_failure_in_order() {
    let readings = vec![
        KernelParamReading {
            path: "/proc/sys/vm/swappiness".to_string(),
            expect: 0,
            content: Ok("0\n".to_string()),
        },
        KernelParamReading {
            path: "/proc/sys/vm/swappiness".to_string(),
            expect: 0,
            content: Ok("60\n".to_string()),
        },
        KernelParamReading {
            path: "/proc/sys/vm/overcommit_memory".to_string(),
            expect: 1,
            content: Err("permission denied".to_string()),
        },
    ];
    let errs = check_kernel(&readings);
    assert_eq!(errs.len(), 2);
    assert!(matches!(&errs[0], KernelCheckError::Mismatch { got: 60, .. }));
    match &errs[1] {
        KernelCheckError::ReadFailed { path, detail } => {
            assert_eq!(path, "/proc/sys/vm/overcommit_memory");
            assert_eq!(detail, "permission denied");
        }
        other => panic!("expected a read failure, got {:?}", other),
    }
}

#[test]
fn the_table_checks_swappiness() {
    let table = kernel_check_table();
    assert_eq!(table.len(), 1);
    assert_eq!(table[0].0, "/proc/sys/vm/swappiness");
    assert_eq!(table[0].1, 0);
}
