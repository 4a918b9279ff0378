# ternary_prophet

Forecasting for ternary state sequences ({-1, 0, +1}), verified with Verus.

- `src/` is the verified library: exact integer statistics (`stats`), trend
  detection by least squares (`trend`), seasonal cycles by autocorrelation
  (`seasonality`), the forecasting engine and walk-forward evaluation
  (`prophet`), confidence intervals (`interval`) and accuracy bookkeeping
  (`accuracy`). Thresholds such as a slope above 1/5 or an autocorrelation
  above 3/10 are compared as exact fractions.
- `app/` holds what works in floating point on top of it: confidence levels
  that decay with the horizon, predictions with intervals, weighted
  ensembles and the evolution of the decay parameter.
- `tests/` exercises the library.

The statistics are exact for series of up to `MAX_SERIES_LEN` values.
