use praborrow::{enforce_invariants, Constitution, ConstitutionError};

struct FiscalData {
    value: i32,
}

fn value_is_non_negative(d: &FiscalData) -> bool {
    d.value >= 0
}

fn value_is_small(d: &FiscalData) -> bool {
    d.value < 1000
}

impl Constitution for FiscalData {
    fn enforce_law(&self) -> Result<(), ConstitutionError> {
        let laws: Vec<(fn(&FiscalData) -> bool, String)> = vec![
            (value_is_non_negative, "self.value >= 0".to_string()),
            (value_is_small, "self.value < 1000".to_string()),
        ];
        enforce_invariants(self, &laws)
    }
}

#[test]
fn test_law_enforcement() {
    let good = FiscalData { value: 100 };
    assert_eq!(good.enforce_law(), Ok(()));
    let bad = FiscalData { value: -5 };
    let result = bad.enforce_law();
    assert!(result.is_err(), "Constitution failed to catch negative value!");
    assert_eq!(
        result,
        Err(ConstitutionError::InvariantViolation { description: "self.value >= 0".to_string() })
    );
}

#[test]
fn first_failing_invariant_is_reported() {
    let big = FiscalData { value: 5000 };
    assert_eq!(
        big.enforce_law(),
        Err(ConstitutionError::InvariantViolation { description: "self.value < 1000".to_string() })
    );
}

#[test]
fn no_invariants_always_pass() {
    let laws: Vec<(fn(&FiscalData) -> bool, String)> = Vec::new();
    assert_eq!(enforce_invariants(&FiscalData { value: -1 }, &laws), Ok(()));
}
