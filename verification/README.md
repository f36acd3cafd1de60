# componentwise

Componentwise operations on dense matrices, verified with Verus.

- `src/matrix.rs`: the column-major `Matrix<T>` and its model `MatrixModel<T>`.
- `src/scalar.rs`: the scalar operations taken from `num-traits` and `simba`.
- `src/componentwise.rs`: absolute value, componentwise product and quotient,
  `cmpy`/`cdpy`, infimum/supremum and scalar addition on `Matrix<i64>`.
- `src/gradient.rs`: second-order finite-difference gradient of `Matrix<i32>`,
  each entry kept at twice its value so that it is an exact integer.
- `src/laws.rs`: properties proved of these operations.
- `app/`: `f64` views of the gradient.
