use telecc::tools::lower_exp_string;

#[test]
fn lower_exp_matches_std_formatting() {
    for n in [0u32, 1, 7, 10, 100, 101, 110, 123, 1000, 4294967295, 230, 9] {
        assert_eq!(lower_exp_string(n), format!("{:2e}", n));
    }
}
