# ina4230

A driver for the TI INA4230 48 V quad-channel current, voltage, power and
energy monitor, with its logic verified by Verus.

- `src/` is the driver core. It performs no bus traffic: an operation that
  changes the device is a script of transactions, and one that reads it says
  which register to read and what the value means.
  - `units`, `convert`: quantities, calibration, and the conversions to and from
    register values, in exact integer arithmetic.
  - `bus`, `bits`, `config`, `flags`, `alert`: the register map and the words in
    it.
  - `reading`, `script`, `driver`, `error`: the operations and what the driver
    records of them.
  - `outcome`: what each operation leaves in the record, however far it gets.
  - `coherence`: the record stays true of the device, whichever transactions
    fail and whatever the device made of those that failed, with one exception:
    a write that arms an alert slot, is acted upon, and is not acknowledged. A
    calibration, an alert, a reset and an ALERT pin configuration that succeed
    are in force in the device; `CONFIG1` is not part of this model.
- `app/` puts the core on an asynchronous I²C bus and implements the sensor
  traits.
- `tests/` runs the core against a mocked bus (`shell.rs`) and on its own
  (`core.rs`).

A shunt or power threshold is scaled by its channel's calibration. Calibrating a
channel therefore disarms those thresholds first; bus thresholds stay armed.
