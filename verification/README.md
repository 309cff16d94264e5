# geotop

`geotop` watches network interfaces and web server logs and shows where the
traffic comes from on a world map, in a terminal or in a window.

* `src/` is the library: configuration rules, log and packet parsing, address
  bookkeeping, the layout and texts of the dashboard and the integer geometry of
  the map. All of it is verified with Verus.
* `app/` is the program around it: arguments, files, sockets, databases, the
  terminal, the window, and everything that is computed in floating point.
* `tests/` runs the library on concrete values.

Numbers with a fraction reach the library as bit patterns, as ratios or as
text that the program formatted; it compares them and passes them on.

The program reads the outlines of the land from
`assets/natural-earth-110m-land.geojson`, beside itself or in the working
directory. Without that file it draws a coarse map.
